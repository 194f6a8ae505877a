//! A transport-only receiver of frames that come on two streams.
//!
//! The metadata stream carries one JSON object per line; each says how many raw
//! bytes the data stream holds for it. Reading belongs to the process around this
//! module: it hands in the chunks that it read, as the stream cut them, and asks
//! [`Receiving`] what comes next.

use crate::json::{
    is_object, number_member, number_members, object_document, parse_document, parsed_document,
    text_member, text_members,
};
use crate::text::{
    append_text, byte_len, byte_length, chars_of, decimal, decimal_text, trim, trimmed,
};
use vstd::prelude::*;
use vstd::slice::slice_subrange;

verus! {

pub const DEFAULT_MAX_METADATA_LINE_BYTES: usize = 64 * 1024;

pub const DEFAULT_MAX_DATA_CHUNK_BYTES: usize = 1024 * 1024;

pub const MAX_SCHEMA_VERSION_BYTES: usize = 128;

#[derive(Debug, PartialEq, Eq)]
pub enum ReceiverError {
    Io { message: String },
    MetadataTooLarge,
    InvalidMetadata,
    MissingSchemaVersion,
    InvalidByteLength,
    DataChunkTooLarge { requested: u64, maximum: usize },
    TruncatedData { expected: usize, received: usize },
}

impl ReceiverError {
    pub open spec fn text(self) -> Seq<char> {
        match self {
            ReceiverError::Io { message } => "receiver I/O failed: "@ + message@,
            ReceiverError::MetadataTooLarge =>
                "receiver metadata line exceeds the configured bound"@,
            ReceiverError::InvalidMetadata => "receiver metadata is not a JSON object"@,
            ReceiverError::MissingSchemaVersion => "receiver metadata is missing schemaVersion"@,
            ReceiverError::InvalidByteLength =>
                "receiver metadata byteLength must be a non-negative integer"@,
            ReceiverError::DataChunkTooLarge { requested, maximum } =>
                "receiver data chunk requests "@ + decimal(requested as nat)
                + " bytes, above the "@ + decimal(maximum as nat) + "-byte bound"@,
            ReceiverError::TruncatedData { expected, received } =>
                "receiver data stream closed after "@ + decimal(received as nat) + " of "@
                + decimal(expected as nat) + " expected bytes"@,
        }
    }

    /// The message that reports the error.
    pub fn message(&self) -> (text: String)
        ensures
            text@ == self.text(),
    {
        match self {
            ReceiverError::Io { message } => append_text(
                "receiver I/O failed: ".to_owned(),
                message.as_str(),
            ),
            ReceiverError::MetadataTooLarge =>
                "receiver metadata line exceeds the configured bound".to_owned(),
            ReceiverError::InvalidMetadata => "receiver metadata is not a JSON object".to_owned(),
            ReceiverError::MissingSchemaVersion =>
                "receiver metadata is missing schemaVersion".to_owned(),
            ReceiverError::InvalidByteLength =>
                "receiver metadata byteLength must be a non-negative integer".to_owned(),
            ReceiverError::DataChunkTooLarge { requested, maximum } => {
                let text = append_text(
                    "receiver data chunk requests ".to_owned(),
                    decimal_text(*requested).as_str(),
                );
                let text = append_text(text, " bytes, above the ");
                let text = append_text(text, decimal_text(*maximum as u64).as_str());
                append_text(text, "-byte bound")
            },
            ReceiverError::TruncatedData { expected, received } => {
                let text = append_text(
                    "receiver data stream closed after ".to_owned(),
                    decimal_text(*received as u64).as_str(),
                );
                let text = append_text(text, " of ");
                let text = append_text(text, decimal_text(*expected as u64).as_str());
                append_text(text, " expected bytes")
            },
        }
    }
}

#[derive(Debug, PartialEq)]
pub struct ReceiverFrame {
    pub metadata: serde_json::Value,
    pub data: Vec<u8>,
}

#[derive(Clone, Copy, Debug, PartialEq, Eq, Structural)]
pub struct ReceiverLimits {
    pub max_metadata_line_bytes: usize,
    pub max_data_chunk_bytes: usize,
}

impl Default for ReceiverLimits {
    fn default() -> (limits: Self)
        ensures
            limits == (ReceiverLimits {
                max_metadata_line_bytes: DEFAULT_MAX_METADATA_LINE_BYTES,
                max_data_chunk_bytes: DEFAULT_MAX_DATA_CHUNK_BYTES,
            }),
    {
        ReceiverLimits {
            max_metadata_line_bytes: DEFAULT_MAX_METADATA_LINE_BYTES,
            max_data_chunk_bytes: DEFAULT_MAX_DATA_CHUNK_BYTES,
        }
    }
}

/// The line feed that ends a metadata line.
pub const LINE_FEED: u8 = 10;

pub const CARRIAGE_RETURN: u8 = 13;

/// The number of bytes up to and with the first line feed, or of all bytes.
pub open spec fn line_extent(bytes: Seq<u8>) -> int
    decreases bytes.len(),
{
    if bytes.len() == 0 {
        0
    } else if bytes[0] == LINE_FEED {
        1
    } else {
        1 + line_extent(bytes.drop_first())
    }
}

/// `line` without the carriage returns and line feeds that end it.
pub open spec fn stripped(line: Seq<u8>) -> Seq<u8>
    decreases line.len(),
{
    if line.len() > 0 && (line.last() == LINE_FEED || line.last() == CARRIAGE_RETURN) {
        stripped(line.drop_last())
    } else {
        line
    }
}

/// What the metadata stream holds next.
#[verifier::ext_equal]
pub enum NextLine {
    /// The stream has ended.
    Nothing,
    Line(Seq<u8>),
    TooLarge,
}

/// The first line of a whole stream. The last line may lack its terminator; it is then
/// taken as it stands.
pub open spec fn first_line(stream: Seq<u8>, maximum: nat) -> NextLine {
    if line_extent(stream) > maximum {
        NextLine::TooLarge
    } else if stream.len() == 0 {
        NextLine::Nothing
    } else if stream.contains(LINE_FEED) {
        NextLine::Line(stripped(stream.take(line_extent(stream))))
    } else {
        NextLine::Line(stream)
    }
}

/// How a chunk takes the reading of a line further.
#[verifier::ext_equal]
pub enum LineStep {
    More(Seq<u8>),
    Done(NextLine),
}

/// What a chunk of the stream makes of a line begun with `line`. An empty chunk is the
/// end of the stream.
pub open spec fn line_step(line: Seq<u8>, chunk: Seq<u8>, maximum: nat) -> LineStep {
    if chunk.len() == 0 {
        LineStep::Done(
            if line.len() == 0 {
                NextLine::Nothing
            } else {
                NextLine::Line(line)
            },
        )
    } else if line.len() + line_extent(chunk) > maximum {
        LineStep::Done(NextLine::TooLarge)
    } else if chunk.contains(LINE_FEED) {
        LineStep::Done(NextLine::Line(stripped(line + chunk.take(line_extent(chunk)))))
    } else {
        LineStep::More(line + chunk)
    }
}

proof fn lemma_line_extent(bytes: Seq<u8>)
    ensures
        0 <= line_extent(bytes) <= bytes.len(),
        bytes.len() > 0 ==> line_extent(bytes) > 0,
        bytes.contains(LINE_FEED) ==> line_extent(bytes) > 0 && bytes[line_extent(bytes) - 1]
            == LINE_FEED,
        !bytes.contains(LINE_FEED) ==> line_extent(bytes) == bytes.len(),
        forall|i: int| 0 <= i < line_extent(bytes) - 1 ==> #[trigger] bytes[i] != LINE_FEED,
    decreases bytes.len(),
{
    if bytes.len() > 0 {
        let rest = bytes.drop_first();
        lemma_line_extent(rest);
        assert(forall|i: int| 0 <= i < rest.len() ==> #[trigger] rest[i] == bytes[i + 1]);
        if bytes[0] == LINE_FEED {
            assert(bytes.contains(LINE_FEED));
        } else {
            if bytes.contains(LINE_FEED) {
                let i = choose|i: int| 0 <= i < bytes.len() && bytes[i] == LINE_FEED;
                assert(rest[i - 1] == LINE_FEED);
                assert(rest.contains(LINE_FEED));
            }
            if rest.contains(LINE_FEED) {
                let i = choose|i: int| 0 <= i < rest.len() && rest[i] == LINE_FEED;
                assert(bytes[i + 1] == LINE_FEED);
            }
            assert forall|i: int| 0 <= i < line_extent(bytes) - 1 implies #[trigger] bytes[i]
                != LINE_FEED by {
                if i > 0 {
                    assert(rest[i - 1] == bytes[i]);
                }
            }
        }
    }
}

proof fn lemma_line_extent_unique(bytes: Seq<u8>, n: int)
    requires
        0 <= n <= bytes.len(),
        forall|i: int| 0 <= i < n - 1 ==> #[trigger] bytes[i] != LINE_FEED,
        n == 0 ==> bytes.len() == 0,
        n > 0 ==> bytes[n - 1] == LINE_FEED || n == bytes.len(),
    ensures
        line_extent(bytes) == n,
{
    lemma_line_extent(bytes);
    if line_extent(bytes) < n {
        if bytes.contains(LINE_FEED) {
            assert(bytes[line_extent(bytes) - 1] == LINE_FEED);
        }
    } else if line_extent(bytes) > n {
        assert(bytes[n - 1] != LINE_FEED);
    }
}

/// The chunks of a stream, put together again.
pub open spec fn stream_of(chunks: Seq<Seq<u8>>) -> Seq<u8>
    decreases chunks.len(),
{
    if chunks.len() == 0 {
        Seq::empty()
    } else {
        chunks[0] + stream_of(chunks.drop_first())
    }
}

/// What comes of reading a line, begun with `line`, from chunks that end the stream.
pub open spec fn line_from_chunks(
    line: Seq<u8>,
    chunks: Seq<Seq<u8>>,
    maximum: nat,
) -> NextLine
    decreases chunks.len(),
{
    if chunks.len() == 0 {
        match line_step(line, Seq::empty(), maximum) {
            LineStep::Done(next) => next,
            LineStep::More(_) => NextLine::Nothing,
        }
    } else {
        match line_step(line, chunks[0], maximum) {
            LineStep::Done(next) => next,
            LineStep::More(more) => line_from_chunks(more, chunks.drop_first(), maximum),
        }
    }
}

proof fn lemma_chunks(line: Seq<u8>, chunks: Seq<Seq<u8>>, maximum: nat)
    requires
        !line.contains(LINE_FEED),
        line.len() <= maximum,
        forall|i: int| 0 <= i < chunks.len() ==> #[trigger] chunks[i].len() > 0,
    ensures
        line_from_chunks(line, chunks, maximum) == first_line(line + stream_of(chunks), maximum),
    decreases chunks.len(),
{
    let stream = line + stream_of(chunks);
    lemma_line_extent(stream);
    if chunks.len() == 0 {
        assert(stream =~= line);
    } else {
        let chunk = chunks[0];
        let rest = stream_of(chunks.drop_first());
        let reached = line_extent(chunk);
        lemma_line_extent(chunk);
        assert(stream =~= (line + chunk) + rest);
        assert forall|i: int| 0 <= i < line.len() implies #[trigger] stream[i] != LINE_FEED by {
            assert(stream[i] == line[i]);
            assert(line.contains(line[i]));
        }
        assert forall|i: int| line.len() <= i < line.len() + chunk.len() implies #[trigger] stream[i]
            == chunk[i - line.len()] by {}
        if chunk.contains(LINE_FEED) {
            let n = line.len() + reached;
            assert(stream[n - 1] == chunk[reached - 1]);
            assert(stream.contains(LINE_FEED));
            lemma_line_extent_unique(stream, n);
            assert(stream.take(n) =~= line + chunk.take(reached));
        } else {
            assert(reached == chunk.len());
            assert forall|i: int| 0 <= i < line.len() + chunk.len() implies #[trigger] stream[i]
                != LINE_FEED by {
                if i >= line.len() {
                    assert(chunk.contains(chunk[i - line.len()]));
                }
            }
            assert(line_extent(stream) >= line.len() + chunk.len()) by {
                if line_extent(stream) < line.len() + chunk.len() {
                    if stream.contains(LINE_FEED) {
                        assert(stream[line_extent(stream) - 1] == LINE_FEED);
                    }
                }
            }
            if line.len() + chunk.len() <= maximum {
                let more = line + chunk;
                assert(!more.contains(LINE_FEED)) by {
                    if more.contains(LINE_FEED) {
                        let i = choose|i: int| 0 <= i < more.len() && more[i] == LINE_FEED;
                        assert(stream[i] == more[i]);
                    }
                }
                let left = chunks.drop_first();
                assert forall|i: int| 0 <= i < left.len() implies #[trigger] left[i].len() > 0 by {
                    assert(left[i] == chunks[i + 1]);
                }
                lemma_chunks(more, left, maximum);
            }
        }
    }
}

/// A metadata line is the same however the stream is cut into chunks: the first line of
/// the whole stream.
pub proof fn law_lines_do_not_depend_on_chunks(chunks: Seq<Seq<u8>>, maximum: nat)
    requires
        forall|i: int| 0 <= i < chunks.len() ==> #[trigger] chunks[i].len() > 0,
    ensures
        line_from_chunks(Seq::empty(), chunks, maximum) == first_line(stream_of(chunks), maximum),
{
    lemma_chunks(Seq::empty(), chunks, maximum);
    assert(Seq::<u8>::empty() + stream_of(chunks) =~= stream_of(chunks));
}

/// What the receiver reads of a metadata document.
#[derive(Debug, PartialEq, Eq)]
pub struct MetadataFields {
    pub object: bool,
    /// The `schemaVersion`, where it is a string.
    pub schema_version: Option<String>,
    /// The `byteLength`, where it is a non-negative integer.
    pub byte_length: Option<u64>,
}

/// A schema version that says something, in bounds.
pub open spec fn usable_version(version: Option<Seq<char>>) -> bool {
    version matches Some(text) && trim(text).len() > 0 && byte_length(text)
        <= MAX_SCHEMA_VERSION_BYTES
}

/// How many data bytes belong to a frame whose metadata reads so.
pub open spec fn judged(
    object: bool,
    version: Option<Seq<char>>,
    length: Option<u64>,
    limits: ReceiverLimits,
) -> Result<usize, ReceiverError> {
    if !object {
        Err(ReceiverError::InvalidMetadata)
    } else if !usable_version(version) {
        Err(ReceiverError::MissingSchemaVersion)
    } else {
        match length {
            None => Err(ReceiverError::InvalidByteLength),
            Some(requested) => if requested > limits.max_data_chunk_bytes {
                Err(
                    ReceiverError::DataChunkTooLarge {
                        requested,
                        maximum: limits.max_data_chunk_bytes,
                    },
                )
            } else {
                Ok(requested as usize)
            },
        }
    }
}

pub open spec fn optional_text(text: Option<String>) -> Option<Seq<char>> {
    match text {
        Some(text) => Some(text@),
        None => None,
    }
}

/// Judge the metadata of a frame.
pub fn judge_metadata(fields: &MetadataFields, limits: ReceiverLimits) -> (outcome: Result<
    usize,
    ReceiverError,
>)
    ensures
        outcome == judged(
            fields.object,
            optional_text(fields.schema_version),
            fields.byte_length,
            limits,
        ),
{
    if !fields.object {
        return Err(ReceiverError::InvalidMetadata);
    }
    let usable = match &fields.schema_version {
        Some(version) => {
            let chars = chars_of(version.as_str());
            trimmed(chars.as_slice()).len() > 0 && byte_len(version.as_str())
                <= MAX_SCHEMA_VERSION_BYTES
        },
        None => false,
    };
    if !usable {
        return Err(ReceiverError::MissingSchemaVersion);
    }
    parse_byte_length(fields.byte_length, limits.max_data_chunk_bytes)
}

fn parse_byte_length(length: Option<u64>, maximum: usize) -> (outcome: Result<
    usize,
    ReceiverError,
>)
    ensures
        outcome == (match length {
            None => Err::<usize, ReceiverError>(ReceiverError::InvalidByteLength),
            Some(requested) => if requested > maximum {
                Err(ReceiverError::DataChunkTooLarge { requested, maximum })
            } else {
                Ok(requested as usize)
            },
        }),
{
    match length {
        None => Err(ReceiverError::InvalidByteLength),
        Some(requested) => {
            if requested > maximum as u64 {
                return Err(ReceiverError::DataChunkTooLarge { requested, maximum });
            }
            Ok(requested as usize)
        },
    }
}

/// What the document of a metadata line asks for.
pub open spec fn judged_document(
    value: serde_json::Value,
    limits: ReceiverLimits,
) -> Result<usize, ReceiverError> {
    let texts = text_members(value);
    let numbers = number_members(value);
    judged(
        object_document(value),
        if texts.contains_key("schemaVersion"@) {
            Some(texts["schemaVersion"@])
        } else {
            None
        },
        if numbers.contains_key("byteLength"@) {
            Some(numbers["byteLength"@])
        } else {
            None
        },
        limits,
    )
}

/// What a metadata line asks for: its document and the number of data bytes.
pub open spec fn judged_line(line: Seq<u8>, limits: ReceiverLimits) -> Result<
    (serde_json::Value, usize),
    ReceiverError,
> {
    match parsed_document(line) {
        None => Err(ReceiverError::InvalidMetadata),
        Some(value) => match judged_document(value, limits) {
            Err(error) => Err(error),
            Ok(length) => Ok((value, length)),
        },
    }
}

/// Parse and judge a metadata line.
pub fn judge_line(line: &[u8], limits: ReceiverLimits) -> (outcome: Result<
    (serde_json::Value, usize),
    ReceiverError,
>)
    ensures
        outcome == judged_line(line@, limits),
{
    let metadata = match parse_document(line) {
        Ok(metadata) => metadata,
        Err(_) => return Err(ReceiverError::InvalidMetadata),
    };
    let fields = MetadataFields {
        object: is_object(&metadata),
        schema_version: text_member(&metadata, "schemaVersion"),
        byte_length: number_member(&metadata, "byteLength"),
    };
    match judge_metadata(&fields, limits) {
        Ok(length) => Ok((metadata, length)),
        Err(error) => Err(error),
    }
}

/// How far the receipt of one frame has come.
#[derive(Debug, PartialEq)]
pub enum Receiving {
    /// A chunk of the metadata stream is next; `line` was read already.
    Metadata { line: Vec<u8> },
    /// A chunk of the data stream is next; `data` was read already.
    Data { metadata: serde_json::Value, expected: usize, data: Vec<u8> },
    /// A frame, or nothing where the metadata stream has ended, or an error.
    Finished(Result<Option<ReceiverFrame>, ReceiverError>),
}

/// What a [`Receiving`] says.
#[verifier::ext_equal]
pub enum Progress {
    Metadata(Seq<u8>),
    Data { metadata: serde_json::Value, expected: usize, data: Seq<u8> },
    Frame { metadata: serde_json::Value, data: Seq<u8> },
    End,
    Failed(ReceiverError),
}

impl View for Receiving {
    type V = Progress;

    open spec fn view(&self) -> Progress {
        match *self {
            Receiving::Metadata { line } => Progress::Metadata(line@),
            Receiving::Data { metadata, expected, data } => Progress::Data {
                metadata,
                expected,
                data: data@,
            },
            Receiving::Finished(Ok(Some(frame))) => Progress::Frame {
                metadata: frame.metadata,
                data: frame.data@,
            },
            Receiving::Finished(Ok(None)) => Progress::End,
            Receiving::Finished(Err(error)) => Progress::Failed(error),
        }
    }
}

/// A frame that wants `expected` data bytes begins.
pub open spec fn begun(metadata: serde_json::Value, expected: usize) -> Progress {
    if expected == 0 {
        Progress::Frame { metadata, data: Seq::empty() }
    } else {
        Progress::Data { metadata, expected, data: Seq::empty() }
    }
}

impl Progress {
    /// Data is awaited only while some is missing.
    pub open spec fn consistent(self) -> bool {
        self matches Progress::Data { expected, data, .. } ==> data.len() < expected
    }

    /// What a chunk of the metadata stream leads to. An empty one ends the stream.
    pub open spec fn after_metadata(self, chunk: Seq<u8>, limits: ReceiverLimits) -> Progress {
        match self {
            Progress::Metadata(line) => match line_step(
                line,
                chunk,
                limits.max_metadata_line_bytes as nat,
            ) {
                LineStep::More(more) => Progress::Metadata(more),
                LineStep::Done(NextLine::Nothing) => Progress::End,
                LineStep::Done(NextLine::TooLarge) => Progress::Failed(
                    ReceiverError::MetadataTooLarge,
                ),
                LineStep::Done(NextLine::Line(whole)) => match judged_line(whole, limits) {
                    Ok((metadata, expected)) => begun(metadata, expected),
                    Err(error) => Progress::Failed(error),
                },
            },
            _ => self,
        }
    }

    /// What a chunk of the data stream leads to. An empty one ends the stream.
    pub open spec fn after_data(self, chunk: Seq<u8>) -> Progress {
        match self {
            Progress::Data { metadata, expected, data } => if chunk.len() == 0 {
                Progress::Failed(
                    ReceiverError::TruncatedData { expected, received: data.len() as usize },
                )
            } else if data.len() + chunk.len() >= expected {
                Progress::Frame { metadata, data: data + chunk }
            } else {
                Progress::Data { metadata, expected, data: data + chunk }
            },
            _ => self,
        }
    }

    /// How many data bytes are missing.
    pub open spec fn missing(self) -> int {
        match self {
            Progress::Data { expected, data, .. } => expected - data.len(),
            _ => 0,
        }
    }
}

fn extent_of(chunk: &[u8]) -> (extent: (usize, bool))
    ensures
        extent.0 == line_extent(chunk@),
        extent.0 <= chunk@.len(),
        extent.1 == chunk@.contains(LINE_FEED),
{
    let mut i: usize = 0;
    while i < chunk.len()
        invariant
            i <= chunk@.len(),
            forall|j: int| 0 <= j < i ==> #[trigger] chunk@[j] != LINE_FEED,
        decreases chunk@.len() - i,
    {
        if chunk[i] == LINE_FEED {
            proof {
                lemma_line_extent_unique(chunk@, i + 1);
                assert(chunk@.contains(chunk@[i as int]));
            }
            return (i + 1, true);
        }
        i = i + 1;
    }
    proof {
        lemma_line_extent_unique(chunk@, i as int);
    }
    (i, false)
}

fn append_bytes(bytes: Vec<u8>, more: &[u8]) -> (all: Vec<u8>)
    ensures
        all@ == bytes@ + more@,
{
    let mut all = bytes;
    let ghost begun = all@;
    let mut i: usize = 0;
    assert(begun + more@.take(0) =~= begun);
    while i < more.len()
        invariant
            i <= more@.len(),
            all@ == begun + more@.take(i as int),
        decreases more@.len() - i,
    {
        all.push(more[i]);
        assert(all@ =~= begun + more@.take(i + 1));
        i = i + 1;
    }
    assert(more@.take(more@.len() as int) =~= more@);
    all
}

fn strip_line(line: Vec<u8>) -> (bare: Vec<u8>)
    ensures
        bare@ == stripped(line@),
{
    let ghost whole = line@;
    let mut bare = line;
    while bare.len() > 0 && (bare[bare.len() - 1] == LINE_FEED || bare[bare.len() - 1]
        == CARRIAGE_RETURN)
        invariant
            stripped(bare@) == stripped(whole),
        decreases bare@.len(),
    {
        assert(stripped(bare@) == stripped(bare@.drop_last()));
        bare.pop();
    }
    bare
}

fn begin_frame(line: Vec<u8>, limits: ReceiverLimits) -> (next: Receiving)
    ensures
        next@ == (match judged_line(line@, limits) {
            Ok((metadata, expected)) => begun(metadata, expected),
            Err(error) => Progress::Failed(error),
        }),
        next@.consistent(),
{
    match judge_line(line.as_slice(), limits) {
        Ok((metadata, expected)) => Receiving::begin(metadata, expected),
        Err(error) => Receiving::Finished(Err(error)),
    }
}

impl Receiving {
    /// Nothing was read yet.
    pub fn start() -> (receiving: Self)
        ensures
            receiving@ == Progress::Metadata(Seq::empty()),
            receiving@.consistent(),
    {
        Receiving::Metadata { line: Vec::new() }
    }

    /// The metadata of a frame is known, and how many data bytes belong to it.
    pub fn begin(metadata: serde_json::Value, expected: usize) -> (receiving: Self)
        ensures
            receiving@ == begun(metadata, expected),
            receiving@.consistent(),
    {
        let data: Vec<u8> = Vec::new();
        if expected == 0 {
            Receiving::Finished(Ok(Some(ReceiverFrame { metadata, data })))
        } else {
            Receiving::Data { metadata, expected, data }
        }
    }

    /// Take a chunk of the metadata stream; an empty one is its end. The second result
    /// says how many bytes of the chunk belong to this frame: the rest is left for the
    /// next one.
    pub fn take_metadata(self, chunk: &[u8], limits: ReceiverLimits) -> (next: (Self, usize))
        requires
            self@.consistent(),
        ensures
            next.0@ == self@.after_metadata(chunk@, limits),
            next.0@.consistent(),
            next.1 == (if self@ is Metadata && !(next.0@ == Progress::Failed(
                ReceiverError::MetadataTooLarge,
            )) {
                line_extent(chunk@)
            } else {
                0
            }),
            next.1 <= chunk@.len(),
    {
        let line = match self {
            Receiving::Metadata { line } => line,
            other => {
                return (other, 0);
            },
        };
        let maximum = limits.max_metadata_line_bytes;
        let (extent, complete) = extent_of(chunk);
        if chunk.len() == 0 {
            if line.len() == 0 {
                return (Receiving::Finished(Ok(None)), 0);
            }
            return (begin_frame(line, limits), 0);
        }
        if line.len() > maximum || extent > maximum - line.len() {
            return (Receiving::Finished(Err(ReceiverError::MetadataTooLarge)), 0);
        }
        let taken = slice_subrange(chunk, 0, extent);
        assert(taken@ =~= chunk@.take(extent as int));
        let more = append_bytes(line, taken);
        if complete {
            (begin_frame(strip_line(more), limits), extent)
        } else {
            proof {
                lemma_line_extent(chunk@);
                assert(chunk@.take(extent as int) =~= chunk@);
            }
            (Receiving::Metadata { line: more }, extent)
        }
    }

    /// How many data bytes are wanted next.
    pub fn wanted(&self) -> (bytes: usize)
        requires
            self@.consistent(),
        ensures
            bytes == self@.missing(),
    {
        match self {
            Receiving::Data { expected, data, .. } => *expected - data.len(),
            _ => 0,
        }
    }

    /// Take a chunk of the data stream of at most the wanted size; an empty one is the
    /// end of the stream.
    pub fn take_data(self, chunk: &[u8]) -> (next: Self)
        requires
            self@.consistent(),
            chunk@.len() <= self@.missing(),
        ensures
            next@ == self@.after_data(chunk@),
            next@.consistent(),
    {
        match self {
            Receiving::Data { metadata, expected, data } => {
                if chunk.len() == 0 {
                    return Receiving::Finished(
                        Err(ReceiverError::TruncatedData { expected, received: data.len() }),
                    );
                }
                let data = append_bytes(data, chunk);
                if data.len() >= expected {
                    Receiving::Finished(Ok(Some(ReceiverFrame { metadata, data })))
                } else {
                    Receiving::Data { metadata, expected, data }
                }
            },
            other => other,
        }
    }
}

/// The progress after some chunks of the data stream.
pub open spec fn data_from_chunks(progress: Progress, chunks: Seq<Seq<u8>>) -> Progress
    decreases chunks.len(),
{
    if chunks.len() == 0 {
        progress
    } else {
        data_from_chunks(progress.after_data(chunks[0]), chunks.drop_first())
    }
}

proof fn lemma_data_chunks(
    metadata: serde_json::Value,
    expected: usize,
    data: Seq<u8>,
    chunks: Seq<Seq<u8>>,
)
    requires
        data.len() < expected,
        data.len() + stream_of(chunks).len() <= expected,
        forall|i: int| 0 <= i < chunks.len() ==> #[trigger] chunks[i].len() > 0,
    ensures
        data_from_chunks(Progress::Data { metadata, expected, data }, chunks) == (if data.len()
            + stream_of(chunks).len() == expected {
            Progress::Frame { metadata, data: data + stream_of(chunks) }
        } else {
            Progress::Data { metadata, expected, data: data + stream_of(chunks) }
        }),
    decreases chunks.len(),
{
    if chunks.len() == 0 {
        assert(data + stream_of(chunks) =~= data);
    } else {
        let rest = chunks.drop_first();
        let more = data + chunks[0];
        assert forall|i: int| 0 <= i < rest.len() implies #[trigger] rest[i].len() > 0 by {
            assert(rest[i] == chunks[i + 1]);
        }
        assert(data + stream_of(chunks) =~= more + stream_of(rest));
        if more.len() < expected {
            lemma_data_chunks(metadata, expected, more, rest);
        } else {
            assert(stream_of(rest).len() == 0);
            if rest.len() > 0 {
                assert(rest[0].len() > 0);
                assert(stream_of(rest) == rest[0] + stream_of(rest.drop_first()));
            }
            assert(rest.len() == 0);
            assert(more + stream_of(rest) =~= more);
            let progress = Progress::Data { metadata, expected, data };
            assert(progress.after_data(chunks[0]) == (Progress::Frame { metadata, data: more }));
            assert(data_from_chunks(progress.after_data(chunks[0]), rest) == progress.after_data(
                chunks[0],
            ));
        }
    }
}

/// However the data stream is cut, a frame holds exactly the bytes that its metadata asked
/// for, in order; and a stream that ends early is reported with the number of bytes that
/// came, none of them made up.
pub proof fn law_data_is_exact(
    metadata: serde_json::Value,
    expected: usize,
    chunks: Seq<Seq<u8>>,
)
    requires
        expected > 0,
        stream_of(chunks).len() <= expected,
        forall|i: int| 0 <= i < chunks.len() ==> #[trigger] chunks[i].len() > 0,
    ensures
        stream_of(chunks).len() == expected ==> data_from_chunks(begun(metadata, expected), chunks)
            == (Progress::Frame { metadata, data: stream_of(chunks) }),
        stream_of(chunks).len() < expected ==> data_from_chunks(
            begun(metadata, expected),
            chunks,
        ).after_data(Seq::empty()) == Progress::Failed(
            ReceiverError::TruncatedData {
                expected,
                received: stream_of(chunks).len() as usize,
            },
        ),
{
    lemma_data_chunks(metadata, expected, Seq::empty(), chunks);
    assert(Seq::<u8>::empty() + stream_of(chunks) =~= stream_of(chunks));
}

/// A frame that asks for no data is complete at once, and one that asks for too much is
/// refused before any data is read.
pub proof fn law_data_is_not_touched_needlessly(line: Seq<u8>, limits: ReceiverLimits)
    ensures
        judged_line(line, limits) matches Ok((metadata, expected)) ==> {
            &&& expected <= limits.max_data_chunk_bytes
            &&& expected == 0 ==> begun(metadata, expected) == (Progress::Frame {
                metadata,
                data: Seq::empty(),
            })
        },
        judged_line(line, limits) matches Err(error) ==> Progress::Failed(error).missing() == 0,
{
}

/// How metadata is judged: it has to be an object with a schema version that is not blank and
/// has at most 128 bytes, and a length that is within the bound for data. Then exactly that
/// length is owed, and no other bound has a say.
pub proof fn law_how_metadata_is_judged(
    object: bool,
    version: Option<Seq<char>>,
    length: Option<u64>,
    limits: ReceiverLimits,
)
    ensures
        ({
            let usable = version is Some && trim(version->0).len() != 0 && byte_length(version->0)
                <= 128;
            let verdict = judged(object, version, length, limits);
            &&& !object ==> verdict == Err::<usize, ReceiverError>(ReceiverError::InvalidMetadata)
            &&& object && !usable ==> verdict == Err::<usize, ReceiverError>(
                ReceiverError::MissingSchemaVersion,
            )
            &&& object && usable && length is None ==> verdict == Err::<usize, ReceiverError>(
                ReceiverError::InvalidByteLength,
            )
            &&& object && usable && length is Some && length->0 > limits.max_data_chunk_bytes
                ==> verdict == Err::<usize, ReceiverError>(
                ReceiverError::DataChunkTooLarge {
                    requested: length->0,
                    maximum: limits.max_data_chunk_bytes,
                },
            )
            &&& object && usable && length is Some && length->0 <= limits.max_data_chunk_bytes ==> (
            verdict matches Ok(owed) && owed == length->0)
        }),
{
}

/// How a line is judged: by the object that it spells, and by its `schemaVersion` and
/// `byteLength` alone. The document itself is handed on. How long a line may be makes no
/// difference to what it may ask for.
pub proof fn law_how_lines_are_judged(
    line: Seq<u8>,
    limits: ReceiverLimits,
    longest_line: usize,
)
    ensures
        parsed_document(line) is None ==> judged_line(line, limits) == Err::<
            (serde_json::Value, usize),
            ReceiverError,
        >(ReceiverError::InvalidMetadata),
        parsed_document(line) matches Some(value) ==> {
            let texts = text_members(value);
            let numbers = number_members(value);
            let versioned = object_document(value) && texts.contains_key("schemaVersion"@) && trim(
                texts["schemaVersion"@],
            ).len() > 0 && byte_length(texts["schemaVersion"@]) <= 128;
            let asked = numbers["byteLength"@];
            &&& !object_document(value) ==> judged_line(line, limits) == Err::<
                (serde_json::Value, usize),
                ReceiverError,
            >(ReceiverError::InvalidMetadata)
            &&& object_document(value) && !versioned ==> judged_line(line, limits) == Err::<
                (serde_json::Value, usize),
                ReceiverError,
            >(ReceiverError::MissingSchemaVersion)
            &&& versioned && !numbers.contains_key("byteLength"@) ==> judged_line(line, limits)
                == Err::<(serde_json::Value, usize), ReceiverError>(
                ReceiverError::InvalidByteLength,
            )
            &&& versioned && numbers.contains_key("byteLength"@) && asked
                > limits.max_data_chunk_bytes ==> judged_line(line, limits) == Err::<
                (serde_json::Value, usize),
                ReceiverError,
            >(
                ReceiverError::DataChunkTooLarge {
                    requested: asked,
                    maximum: limits.max_data_chunk_bytes,
                },
            )
            &&& versioned && numbers.contains_key("byteLength"@) && asked
                <= limits.max_data_chunk_bytes ==> (judged_line(line, limits) matches Ok(
                (metadata, owed),
            ) && metadata == value && owed == asked)
        },
        judged_line(line, limits) == judged_line(
            line,
            ReceiverLimits { max_metadata_line_bytes: longest_line, ..limits },
        ),
{
}

/// A line reaches up to its line feed, or to the end of the stream.
pub proof fn law_line_extent(body: Seq<u8>, rest: Seq<u8>)
    requires
        !body.contains(10u8),
    ensures
        line_extent(body + seq![10u8] + rest) == body.len() + 1,
        line_extent(body) == body.len(),
{
    let stream = body + seq![10u8] + rest;
    assert forall|i: int| 0 <= i < body.len() implies #[trigger] stream[i] != LINE_FEED by {
        assert(stream[i] == body[i]);
        assert(body.contains(body[i]));
    }
    lemma_line_extent_unique(stream, body.len() as int + 1);
    assert forall|i: int| 0 <= i < body.len() - 1 implies #[trigger] body[i] != LINE_FEED by {
        assert(body.contains(body[i]));
    }
    lemma_line_extent_unique(body, body.len() as int);
}

/// Stripping a line takes away the carriage returns and line feeds at its end, all of them
/// and nothing else.
pub proof fn law_stripped(line: Seq<u8>)
    ensures
        stripped(line).len() <= line.len(),
        stripped(line) == line.take(stripped(line).len() as int),
        forall|i: int|
            stripped(line).len() <= i < line.len() ==> #[trigger] line[i] == 10 || line[i] == 13,
        stripped(line).len() > 0 ==> stripped(line).last() != 10 && stripped(line).last() != 13,
    decreases line.len(),
{
    if line.len() > 0 && (line.last() == 10 || line.last() == 13) {
        let rest = line.drop_last();
        law_stripped(rest);
        assert(rest.take(stripped(line).len() as int) =~= line.take(stripped(line).len() as int));
        assert forall|i: int| stripped(line).len() <= i < line.len() implies #[trigger] line[i]
            == 10 || line[i] == 13 by {
            if i < rest.len() {
                assert(rest[i] == line[i]);
            }
        }
    } else {
        assert(line.take(line.len() as int) =~= line);
    }
}

/// The first line of a stream is what stands before its first line feed, without the carriage
/// returns there. Without a line feed it is the whole stream as it stands, and an empty stream
/// has none. A line that is longer than the bound, with its line feed, is refused.
pub proof fn law_first_line(body: Seq<u8>, rest: Seq<u8>, maximum: nat)
    requires
        !body.contains(10u8),
    ensures
        body.len() + 1 <= maximum ==> first_line(body + seq![10u8] + rest, maximum)
            == NextLine::Line(stripped(body)),
        body.len() + 1 > maximum ==> first_line(body + seq![10u8] + rest, maximum)
            == NextLine::TooLarge,
        0 < body.len() <= maximum ==> first_line(body, maximum) == NextLine::Line(body),
        body.len() > maximum ==> first_line(body, maximum) == NextLine::TooLarge,
        first_line(Seq::empty(), maximum) == NextLine::Nothing,
{
    law_line_extent(body, rest);
    let stream = body + seq![10u8] + rest;
    assert(stream[body.len() as int] == 10u8);
    assert(stream.contains(LINE_FEED));
    let ended = body + seq![10u8];
    assert(stream.take(body.len() as int + 1) =~= ended);
    assert(ended.drop_last() =~= body);
    assert(stripped(ended) == stripped(body));
}

/// What a chunk of the metadata stream does to a receipt that waits for one: an unfinished
/// line waits for more, the end of the stream ends it, a line that is too long fails, and a
/// whole line is judged. A receipt that waits for something else is not touched.
pub proof fn law_what_metadata_chunks_do(
    line: Seq<u8>,
    chunk: Seq<u8>,
    limits: ReceiverLimits,
    other: Progress,
)
    requires
        !line.contains(10u8),
        line.len() <= limits.max_metadata_line_bytes,
        !(other is Metadata),
    ensures
        ({
            let after = Progress::Metadata(line).after_metadata(chunk, limits);
            let known = line + chunk;
            let maximum = limits.max_metadata_line_bytes as nat;
            &&& chunk.len() > 0 && !chunk.contains(10u8) && known.len() <= maximum ==> after
                == Progress::Metadata(known)
            &&& chunk.len() == 0 && line.len() == 0 ==> after == Progress::End
            &&& first_line(known, maximum) is TooLarge ==> after == Progress::Failed(
                ReceiverError::MetadataTooLarge,
            )
            &&& (chunk.len() == 0 && line.len() > 0) || (chunk.contains(10u8) && !(first_line(
                known,
                maximum,
            ) is TooLarge)) ==> after == (match judged_line(
                first_line(known, maximum)->Line_0,
                limits,
            ) {
                Ok((metadata, expected)) => begun(metadata, expected),
                Err(error) => Progress::Failed(error),
            })
            &&& other.after_metadata(chunk, limits) == other
        }),
{
    let maximum = limits.max_metadata_line_bytes as nat;
    let none = Seq::<Seq<u8>>::empty();
    if chunk.len() == 0 {
        assert(line + chunk =~= line);
        lemma_chunks(line, none, maximum);
        assert(line + stream_of(none) =~= line);
    } else {
        let one = seq![chunk];
        assert forall|i: int| 0 <= i < one.len() implies #[trigger] one[i].len() > 0 by {}
        assert(one.drop_first() =~= none);
        assert(stream_of(one) =~= chunk) by {
            reveal_with_fuel(stream_of, 2);
        }
        lemma_chunks(line, one, maximum);
        lemma_line_extent(chunk);
        lemma_line_extent(line + chunk);
        if !chunk.contains(LINE_FEED) {
            assert forall|i: int| 0 <= i < (line + chunk).len() implies (line + chunk)[i]
                != LINE_FEED by {
                if i < line.len() {
                    assert(line.contains(line[i]));
                } else {
                    assert(chunk.contains(chunk[i - line.len()]));
                }
            }
            assert(!(line + chunk).contains(LINE_FEED));
        }
        reveal_with_fuel(line_from_chunks, 2);
    }
}

/// What is missing of a frame is what it owes less what has come; a receipt that waits for
/// something else misses nothing and takes no data.
pub proof fn law_what_is_missing(
    metadata: serde_json::Value,
    expected: usize,
    data: Seq<u8>,
    other: Progress,
    chunk: Seq<u8>,
)
    requires
        !(other is Data),
    ensures
        (Progress::Data { metadata, expected, data }).missing() + data.len() == expected,
        other.missing() == 0,
        other.after_data(chunk) == other,
{
}

/// The messages about data say how much was asked for, allowed, expected and received.
pub proof fn law_what_receiver_messages_say(
    requested: u64,
    maximum: usize,
    expected: usize,
    received: usize,
    message: String,
)
    ensures
        (ReceiverError::DataChunkTooLarge { requested, maximum }).text()
            == "receiver data chunk requests "@ + decimal(requested as nat)
            + " bytes, above the "@ + decimal(maximum as nat) + "-byte bound"@,
        (ReceiverError::TruncatedData { expected, received }).text()
            == "receiver data stream closed after "@ + decimal(received as nat) + " of "@
            + decimal(expected as nat) + " expected bytes"@,
        (ReceiverError::Io { message }).text() == "receiver I/O failed: "@ + message@,
{
}

/// Two calls of [`judge_line`] on one line under limits that differ in the longest line alone
/// give one result, and the larger of two limits on data takes whatever the smaller one takes.
pub proof fn law_limits_on_lines_do_not_judge_data(
    line: &[u8],
    limits: ReceiverLimits,
    others: ReceiverLimits,
    outcome: Result<(serde_json::Value, usize), ReceiverError>,
    other: Result<(serde_json::Value, usize), ReceiverError>,
)
    requires
        limits.max_data_chunk_bytes <= others.max_data_chunk_bytes,
        call_ensures(judge_line, (line, limits), outcome),
        call_ensures(judge_line, (line, others), other),
    ensures
        limits.max_data_chunk_bytes == others.max_data_chunk_bytes ==> outcome == other,
        outcome is Ok ==> other == outcome,
        outcome matches Ok((_, owed)) ==> owed <= limits.max_data_chunk_bytes,
{
    law_how_lines_are_judged(line@, limits, others.max_metadata_line_bytes);
    law_how_lines_are_judged(line@, others, others.max_metadata_line_bytes);
}

/// While data is awaited there is some missing, so that a receiver never asks for nothing and
/// waits for it.
pub proof fn law_awaited_data_is_missing(progress: Progress)
    ensures
        progress.consistent() <==> !(progress is Data) || progress->Data_data.len()
            < progress->Data_expected,
        progress.consistent() && progress is Data ==> progress.missing() > 0,
{
}

} // verus!
