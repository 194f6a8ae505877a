use ores_otel_sidecar::receiver::{
    judge_line, judge_metadata, MetadataFields, ReceiverError, ReceiverFrame, ReceiverLimits,
    Receiving, DEFAULT_MAX_DATA_CHUNK_BYTES, DEFAULT_MAX_METADATA_LINE_BYTES,
};

/// A stream that is read in chunks of at most `chunk` bytes.
struct Stream {
    bytes: Vec<u8>,
    position: usize,
    chunk: usize,
}

impl Stream {
    fn new(bytes: &[u8], chunk: usize) -> Self {
        Stream {
            bytes: bytes.to_vec(),
            position: 0,
            chunk,
        }
    }

    fn peek(&self, most: usize) -> &[u8] {
        let end = (self.position + self.chunk.min(most)).min(self.bytes.len());
        &self.bytes[self.position..end]
    }
}

fn receive_one(
    metadata: &mut Stream,
    data: &mut Stream,
    limits: ReceiverLimits,
) -> Result<Option<ReceiverFrame>, ReceiverError> {
    let mut receiving = Receiving::start();
    loop {
        receiving = match receiving {
            Receiving::Metadata { .. } => {
                let (next, taken) = receiving.take_metadata(metadata.peek(usize::MAX / 2), limits);
                metadata.position += taken;
                next
            }
            Receiving::Data { .. } => {
                let wanted = receiving.wanted();
                let chunk = data.peek(wanted).to_vec();
                data.position += chunk.len();
                receiving.take_data(&chunk)
            }
            Receiving::Finished(result) => return result,
        };
    }
}

fn metadata(byte_length: usize, sequence: usize) -> String {
    format!(
        "{{\"schemaVersion\":\"gha-indie-worker.build-log-metadata/v1\",\"event\":\"chunk\",\"jobId\":\"build-1\",\"stream\":\"stdout\",\"sequence\":{sequence},\"byteLength\":{byte_length},\"timestamp\":\"2026-09-09T19:45:00Z\"}}\n"
    )
}

#[test]
fn reads_exact_raw_bytes_for_each_metadata_frame() {
    for chunk in [1, 3, 7, 100, 4096] {
        let mut metadata_input = Stream::new(
            format!("{}{}", metadata(5, 1), metadata(4, 2)).as_bytes(),
            chunk,
        );
        let mut data_input = Stream::new(b"helloRust", chunk);
        let first = receive_one(
            &mut metadata_input,
            &mut data_input,
            ReceiverLimits::default(),
        )
        .unwrap()
        .unwrap();
        let second = receive_one(
            &mut metadata_input,
            &mut data_input,
            ReceiverLimits::default(),
        )
        .unwrap()
        .unwrap();
        assert_eq!(first.data, b"hello");
        assert_eq!(second.data, b"Rust");
        assert_eq!(first.metadata["sequence"], 1);
        assert_eq!(second.metadata["sequence"], 2);
        let end = receive_one(
            &mut metadata_input,
            &mut data_input,
            ReceiverLimits::default(),
        );
        assert_eq!(end, Ok(None));
    }
}

#[test]
fn zero_length_lifecycle_frame_does_not_consume_data() {
    let line = "{\"schemaVersion\":\"gha-indie-worker.build-log-metadata/v1\",\"event\":\"stream_closed\",\"jobId\":\"build-1\",\"stream\":\"stdout\",\"sequence\":2,\"byteLength\":0,\"timestamp\":\"2026-09-09T19:45:00Z\"}\n";
    let mut metadata_input = Stream::new(line.as_bytes(), 4096);
    let mut data_input = Stream::new(b"untouched", 4096);
    let frame = receive_one(
        &mut metadata_input,
        &mut data_input,
        ReceiverLimits::default(),
    )
    .unwrap()
    .unwrap();
    assert!(frame.data.is_empty());
    assert_eq!(data_input.position, 0);
}

#[test]
fn rejects_oversized_chunk_before_reading_data() {
    let mut metadata_input = Stream::new(metadata(17, 1).as_bytes(), 4096);
    let mut data_input = Stream::new(b"secret-never-read", 4096);
    let result = receive_one(
        &mut metadata_input,
        &mut data_input,
        ReceiverLimits {
            max_metadata_line_bytes: 4096,
            max_data_chunk_bytes: 16,
        },
    );
    assert!(matches!(
        result,
        Err(ReceiverError::DataChunkTooLarge { .. })
    ));
    assert_eq!(data_input.position, 0);
    assert_eq!(
        result,
        Err(ReceiverError::DataChunkTooLarge {
            requested: 17,
            maximum: 16
        })
    );
}

#[test]
fn reports_truncated_data_without_fabricating_bytes() {
    let mut metadata_input = Stream::new(metadata(8, 1).as_bytes(), 4096);
    let mut data_input = Stream::new(b"short", 2);
    let result = receive_one(
        &mut metadata_input,
        &mut data_input,
        ReceiverLimits::default(),
    );
    assert!(matches!(
        result,
        Err(ReceiverError::TruncatedData {
            expected: 8,
            received: 5
        })
    ));
}

#[test]
fn metadata_line_bound_is_enforced() {
    let line = format!(
        "{{\"schemaVersion\":\"{}\",\"byteLength\":0}}\n",
        "x".repeat(256)
    );
    let mut metadata_input = Stream::new(line.as_bytes(), 4096);
    let mut data_input = Stream::new(b"", 4096);
    let result = receive_one(
        &mut metadata_input,
        &mut data_input,
        ReceiverLimits {
            max_metadata_line_bytes: 64,
            max_data_chunk_bytes: 64,
        },
    );
    assert!(matches!(result, Err(ReceiverError::MetadataTooLarge)));
}

#[test]
fn lines_do_not_depend_on_how_the_stream_is_cut() {
    let exact = "{\"schemaVersion\":\"v\",\"byteLength\":0}\r\n";
    let unterminated = "{\"schemaVersion\":\"v\",\"byteLength\":0}";
    for chunk in 1..50 {
        for (text, maximum, accepted) in [
            (exact, exact.len(), true),
            (exact, exact.len() - 1, false),
            (unterminated, unterminated.len(), true),
            (unterminated, unterminated.len() - 1, false),
        ] {
            let result = receive_one(
                &mut Stream::new(text.as_bytes(), chunk),
                &mut Stream::new(b"", 1),
                ReceiverLimits {
                    max_metadata_line_bytes: maximum,
                    max_data_chunk_bytes: 0,
                },
            );
            if accepted {
                assert!(matches!(result, Ok(Some(_))), "{chunk} {result:?}");
            } else {
                assert_eq!(result, Err(ReceiverError::MetadataTooLarge));
            }
        }
    }
}

#[test]
fn metadata_is_judged_by_its_members() {
    let limits = ReceiverLimits::default();
    assert_eq!(limits.max_metadata_line_bytes, DEFAULT_MAX_METADATA_LINE_BYTES);
    assert_eq!(limits.max_data_chunk_bytes, DEFAULT_MAX_DATA_CHUNK_BYTES);
    let error = |line: &str| judge_line(line.as_bytes(), limits).err();
    for line in ["", "nonsense", "[1]", "7", "{\"a\":1} x"] {
        assert_eq!(error(line), Some(ReceiverError::InvalidMetadata), "{line}");
    }
    assert_eq!(
        judge_line(&[b'"', 0xff, b'"'], limits).err(),
        Some(ReceiverError::InvalidMetadata)
    );
    let long = format!(
        "{{\"schemaVersion\":\"{}\",\"byteLength\":1}}",
        "v".repeat(129)
    );
    for line in [
        "{}",
        "{\"schemaVersion\":7,\"byteLength\":1}",
        "{\"schemaVersion\":\" \\t\",\"byteLength\":1}",
        long.as_str(),
    ] {
        assert_eq!(
            error(line),
            Some(ReceiverError::MissingSchemaVersion),
            "{line}"
        );
    }
    for length in ["-1", "1.5", "\"1\"", "null", "18446744073709551616"] {
        let line = format!("{{\"schemaVersion\":\"v\",\"byteLength\":{length}}}");
        assert_eq!(
            error(&line),
            Some(ReceiverError::InvalidByteLength),
            "{line}"
        );
    }
    let (document, length) =
        judge_line(b"{\"byteLength\":3,\"schemaVersion\":\"v\"}", limits).unwrap();
    assert_eq!(length, 3);
    assert_eq!(document["schemaVersion"], "v");
}

#[test]
fn fields_are_judged_in_order() {
    let limits = ReceiverLimits::default();
    let fields = |object, version: Option<&str>, byte_length| MetadataFields {
        object,
        schema_version: version.map(str::to_owned),
        byte_length,
    };
    assert_eq!(
        judge_metadata(&fields(false, None, None), limits),
        Err(ReceiverError::InvalidMetadata)
    );
    assert_eq!(
        judge_metadata(&fields(true, None, None), limits),
        Err(ReceiverError::MissingSchemaVersion)
    );
    assert_eq!(
        judge_metadata(&fields(true, Some("v"), None), limits),
        Err(ReceiverError::InvalidByteLength)
    );
    assert_eq!(
        judge_metadata(&fields(true, Some("v"), Some(1 << 20)), limits),
        Ok(1 << 20)
    );
    assert_eq!(
        judge_metadata(&fields(true, Some("v"), Some((1 << 20) + 1)), limits),
        Err(ReceiverError::DataChunkTooLarge {
            requested: (1 << 20) + 1,
            maximum: 1 << 20
        })
    );
}

#[test]
fn receiver_errors_have_their_messages() {
    let cases = vec![
        (
            ReceiverError::Io {
                message: "gone".into(),
            },
            "receiver I/O failed: gone",
        ),
        (
            ReceiverError::MetadataTooLarge,
            "receiver metadata line exceeds the configured bound",
        ),
        (
            ReceiverError::InvalidMetadata,
            "receiver metadata is not a JSON object",
        ),
        (
            ReceiverError::MissingSchemaVersion,
            "receiver metadata is missing schemaVersion",
        ),
        (
            ReceiverError::InvalidByteLength,
            "receiver metadata byteLength must be a non-negative integer",
        ),
        (
            ReceiverError::DataChunkTooLarge {
                requested: 17,
                maximum: 16,
            },
            "receiver data chunk requests 17 bytes, above the 16-byte bound",
        ),
        (
            ReceiverError::TruncatedData {
                expected: 8,
                received: 5,
            },
            "receiver data stream closed after 5 of 8 expected bytes",
        ),
    ];
    for (error, message) in cases {
        assert_eq!(error.message(), message);
    }
}
