//! Linux host-agent effects for process suspension and hibernation.
//!
//! cgroup v2 freeze/thaw is the lightweight CPU-reclamation path. CRIU is an
//! optional hibernation backend that checkpoints a process tree and terminates
//! it so the process RSS is actually released. Product code decides when an
//! idle workload is eligible; this adapter reads what the kernel and CRIU report and
//! says what to ask of them.

use crate::text::{
    after, append_text, before, chars_of, chars_spell, contains_char, decimal, decimal_text,
    digits_value, find_char, is_whitespace, law_before_and_after, law_decimal,
    law_parsed_unsigned, law_split, law_trim_undoes_padding, parse_unsigned, parsed_unsigned,
    pieces_view, split, split_at_char, trim, trimmed,
};
use vstd::prelude::*;
use vstd::slice::slice_subrange;

verus! {

pub const CGROUP_FREEZE_FILE: &'static str = "cgroup.freeze";

pub const CGROUP_EVENTS_FILE: &'static str = "cgroup.events";

#[derive(Clone, Copy, Debug, PartialEq, Eq, Structural)]
pub struct CgroupV2Status {
    pub populated: bool,
    pub frozen: bool,
}

/// A write that asks something of the kernel: into which file of which directory, and what.
#[derive(Debug, PartialEq, Eq)]
pub struct CgroupWrite<'a> {
    pub directory: &'a str,
    pub file: &'static str,
    pub contents: &'static str,
}

/// The cgroup of one managed workload.
#[derive(Clone, Debug, PartialEq, Eq)]
pub struct CgroupV2Controller {
    pub cgroup_dir: String,
}

impl CgroupV2Controller {
    #[must_use]
    pub fn new(cgroup_dir: &str) -> (controller: Self)
        ensures
            controller.cgroup_dir@ == cgroup_dir@,
    {
        CgroupV2Controller { cgroup_dir: cgroup_dir.to_owned() }
    }

    /// Request a hierarchical freeze. Completion is asynchronous in the kernel; inspect
    /// the status before persisting a frozen state.
    pub fn request_freeze(&self) -> (write: CgroupWrite<'_>)
        ensures
            write.directory@ == self.cgroup_dir@,
            write.file@ == CGROUP_FREEZE_FILE@,
            write.contents@ == "1\n"@,
    {
        CgroupWrite {
            directory: self.cgroup_dir.as_str(),
            file: CGROUP_FREEZE_FILE,
            contents: "1\n",
        }
    }

    /// Request thaw of the managed cgroup hierarchy.
    pub fn request_thaw(&self) -> (write: CgroupWrite<'_>)
        ensures
            write.directory@ == self.cgroup_dir@,
            write.file@ == CGROUP_FREEZE_FILE@,
            write.contents@ == "0\n"@,
    {
        CgroupWrite {
            directory: self.cgroup_dir.as_str(),
            file: CGROUP_FREEZE_FILE,
            contents: "0\n",
        }
    }
}

#[derive(Debug, PartialEq, Eq)]
pub enum LinuxLifecycleError {
    Io { message: String },
    MissingCgroupEvent { key: &'static str },
    InvalidCgroupEvent { key: &'static str },
    InvalidPollInterval,
    FreezeTimeout,
}

impl LinuxLifecycleError {
    pub open spec fn text(self) -> Seq<char> {
        match self {
            LinuxLifecycleError::Io { message } => "linux lifecycle I/O failed: "@ + message@,
            LinuxLifecycleError::MissingCgroupEvent { key } => "cgroup.events is missing "@ + key@,
            LinuxLifecycleError::InvalidCgroupEvent { key } => "cgroup.events has invalid "@
                + key@,
            LinuxLifecycleError::InvalidPollInterval =>
                "cgroup freeze poll interval must be positive"@,
            LinuxLifecycleError::FreezeTimeout =>
                "cgroup did not reach frozen state before timeout"@,
        }
    }

    /// The message that reports the error.
    pub fn message(&self) -> (text: String)
        ensures
            text@ == self.text(),
    {
        match self {
            LinuxLifecycleError::Io { message } => append_text(
                "linux lifecycle I/O failed: ".to_owned(),
                message.as_str(),
            ),
            LinuxLifecycleError::MissingCgroupEvent { key } => append_text(
                "cgroup.events is missing ".to_owned(),
                key,
            ),
            LinuxLifecycleError::InvalidCgroupEvent { key } => append_text(
                "cgroup.events has invalid ".to_owned(),
                key,
            ),
            LinuxLifecycleError::InvalidPollInterval =>
                "cgroup freeze poll interval must be positive".to_owned(),
            LinuxLifecycleError::FreezeTimeout =>
                "cgroup did not reach frozen state before timeout".to_owned(),
        }
    }
}

/// The line with index `i` of a text that line feeds cut into `pieces`. The carriage
/// return before a line feed is no part of its line.
pub open spec fn line_at(pieces: Seq<Seq<char>>, i: int) -> Seq<char> {
    let piece = pieces[i];
    if i < pieces.len() - 1 && piece.len() > 0 && piece.last() == '\r' {
        piece.drop_last()
    } else {
        piece
    }
}

/// The line gives `key` a value.
pub open spec fn line_sets(line: Seq<char>, key: Seq<char>) -> bool {
    line.contains(' ') && before(line, ' ') == key
}

/// The value of `key` in the lines from `i` on: that of the first line that sets it.
pub open spec fn event_value_from(
    pieces: Seq<Seq<char>>,
    key: Seq<char>,
    i: int,
) -> Option<Seq<char>>
    decreases pieces.len() - i,
{
    if i >= pieces.len() {
        None
    } else if line_sets(line_at(pieces, i), key) {
        Some(after(line_at(pieces, i), ' '))
    } else {
        event_value_from(pieces, key, i + 1)
    }
}

/// The value of `key` in a table of keys and values, one to a line.
pub open spec fn event_value(input: Seq<char>, key: Seq<char>) -> Option<Seq<char>> {
    event_value_from(split(input, '\n'), key, 0)
}

/// The flag that `key` has in such a table.
pub open spec fn event_flag(input: Seq<char>, key: &'static str) -> Result<
    bool,
    LinuxLifecycleError,
> {
    match event_value(input, key@) {
        Some(value) => if value == "0"@ {
            Ok(false)
        } else if value == "1"@ {
            Ok(true)
        } else {
            Err(LinuxLifecycleError::InvalidCgroupEvent { key })
        },
        None => Err(LinuxLifecycleError::MissingCgroupEvent { key }),
    }
}

/// Read the flag that `key` has in the text of `cgroup.events`.
pub fn parse_event_flag(input: &str, key: &'static str) -> (outcome: Result<
    bool,
    LinuxLifecycleError,
>)
    ensures
        outcome == event_flag(input@, key),
{
    let chars = chars_of(input);
    let pieces = split_at_char(chars.as_slice(), '\n');
    let ghost spelled = split(input@, '\n');
    assert(pieces_view(pieces@) == spelled);
    let mut i: usize = 0;
    while i < pieces.len()
        invariant
            i <= pieces@.len(),
            pieces_view(pieces@) == spelled,
            spelled == split(input@, '\n'),
            event_value_from(spelled, key@, i as int) == event_value(input@, key@),
        decreases pieces@.len() - i,
    {
        assert(spelled[i as int] == pieces@[i as int]@);
        let piece = pieces[i];
        let line = if i < pieces.len() - 1 && piece.len() > 0 && piece[piece.len() - 1] == '\r' {
            slice_subrange(piece, 0, piece.len() - 1)
        } else {
            piece
        };
        assert(line@ =~= line_at(spelled, i as int));
        if contains_char(line, ' ') {
            let space = find_char(line, ' ');
            let name = slice_subrange(line, 0, space);
            assert(name@ =~= before(line@, ' '));
            if chars_spell(name, key) {
                let value = slice_subrange(line, space + 1, line.len());
                assert(value@ =~= after(line@, ' '));
                if chars_spell(value, "0") {
                    return Ok(false);
                }
                if chars_spell(value, "1") {
                    return Ok(true);
                }
                return Err(LinuxLifecycleError::InvalidCgroupEvent { key });
            }
        }
        i = i + 1;
    }
    Err(LinuxLifecycleError::MissingCgroupEvent { key })
}

/// The status that the text of `cgroup.events` reports.
pub open spec fn reported_status(input: Seq<char>) -> Result<
    CgroupV2Status,
    LinuxLifecycleError,
> {
    match (event_flag(input, "populated"), event_flag(input, "frozen")) {
        (Ok(populated), Ok(frozen)) => Ok(CgroupV2Status { populated, frozen }),
        (Err(error), _) => Err(error),
        (Ok(_), Err(error)) => Err(error),
    }
}

/// Read the status out of the text of `cgroup.events`.
pub fn parse_status(input: &str) -> (outcome: Result<CgroupV2Status, LinuxLifecycleError>)
    ensures
        outcome == reported_status(input@),
{
    let populated = match parse_event_flag(input, "populated") {
        Ok(populated) => populated,
        Err(error) => return Err(error),
    };
    let frozen = match parse_event_flag(input, "frozen") {
        Ok(frozen) => frozen,
        Err(error) => return Err(error),
    };
    Ok(CgroupV2Status { populated, frozen })
}

/// What comes next while a freeze is awaited.
#[derive(Debug, PartialEq, Eq)]
pub enum FreezeWait {
    /// Sleep for the poll interval and read the status again.
    PollAgain,
    Finished(Result<(), LinuxLifecycleError>),
}

/// A wait without a poll interval is refused before the status is read.
pub fn begin_wait(poll_interval_is_zero: bool) -> (wait: FreezeWait)
    ensures
        wait == (if poll_interval_is_zero {
            FreezeWait::Finished(Err(LinuxLifecycleError::InvalidPollInterval))
        } else {
            FreezeWait::PollAgain
        }),
{
    if poll_interval_is_zero {
        FreezeWait::Finished(Err(LinuxLifecycleError::InvalidPollInterval))
    } else {
        FreezeWait::PollAgain
    }
}

/// Decide after one reading of the status. A frozen group ends the wait even where the
/// deadline has passed.
pub fn after_poll(
    status: Result<CgroupV2Status, LinuxLifecycleError>,
    deadline_passed: bool,
) -> (wait: FreezeWait)
    ensures
        wait == (match status {
            Err(error) => FreezeWait::Finished(Err(error)),
            Ok(status) => if status.frozen {
                FreezeWait::Finished(Ok(()))
            } else if deadline_passed {
                FreezeWait::Finished(Err(LinuxLifecycleError::FreezeTimeout))
            } else {
                FreezeWait::PollAgain
            },
        }),
{
    match status {
        Err(error) => FreezeWait::Finished(Err(error)),
        Ok(status) => {
            if status.frozen {
                FreezeWait::Finished(Ok(()))
            } else if deadline_passed {
                FreezeWait::Finished(Err(LinuxLifecycleError::FreezeTimeout))
            } else {
                FreezeWait::PollAgain
            }
        },
    }
}

#[derive(Clone, Copy, Debug, PartialEq, Eq, Structural)]
pub enum CriuOperation {
    Dump,
    Restore,
}

#[derive(Debug, PartialEq, Eq)]
pub enum CriuLifecycleError {
    Io { message: String },
    CommandFailed { operation: CriuOperation, exit_code: Option<i32> },
    InvalidPidFile,
}

impl CriuOperation {
    pub open spec fn text(self) -> Seq<char> {
        match self {
            CriuOperation::Dump => "Dump"@,
            CriuOperation::Restore => "Restore"@,
        }
    }

    pub fn name(self) -> (name: &'static str)
        ensures
            name@ == self.text(),
    {
        match self {
            CriuOperation::Dump => "Dump",
            CriuOperation::Restore => "Restore",
        }
    }
}

/// An exit code as it is reported; a process that a signal ended has none.
pub open spec fn exit_code_text(exit_code: Option<i32>) -> Seq<char> {
    match exit_code {
        None => "None"@,
        Some(code) => "Some("@ + (if code < 0 {
            "-"@ + decimal((-code) as nat)
        } else {
            decimal(code as nat)
        }) + ")"@,
    }
}

fn written_exit_code(exit_code: Option<i32>) -> (text: String)
    ensures
        text@ == exit_code_text(exit_code),
{
    match exit_code {
        None => "None".to_owned(),
        Some(code) => {
            let number = if code < 0 {
                let magnitude: u64 = (-(code as i64)) as u64;
                append_text("-".to_owned(), decimal_text(magnitude).as_str())
            } else {
                decimal_text(code as u64)
            };
            let text = append_text("Some(".to_owned(), number.as_str());
            append_text(text, ")")
        },
    }
}

impl CriuLifecycleError {
    pub open spec fn text(self) -> Seq<char> {
        match self {
            CriuLifecycleError::Io { message } => "CRIU I/O failed: "@ + message@,
            CriuLifecycleError::CommandFailed { operation, exit_code } => "CRIU "@
                + operation.text() + " failed with exit code "@ + exit_code_text(exit_code),
            CriuLifecycleError::InvalidPidFile => "CRIU restore pidfile is invalid"@,
        }
    }

    /// The message that reports the error.
    pub fn message(&self) -> (text: String)
        ensures
            text@ == self.text(),
    {
        match self {
            CriuLifecycleError::Io { message } => append_text(
                "CRIU I/O failed: ".to_owned(),
                message.as_str(),
            ),
            CriuLifecycleError::CommandFailed { operation, exit_code } => {
                let text = append_text("CRIU ".to_owned(), operation.name());
                let text = append_text(text, " failed with exit code ");
                append_text(text, written_exit_code(*exit_code).as_str())
            },
            CriuLifecycleError::InvalidPidFile => "CRIU restore pidfile is invalid".to_owned(),
        }
    }
}

/// One entry of a CRIU command line. No shell is involved: every value is an entry of its
/// own, and a path stands for itself.
#[derive(Debug, PartialEq, Eq)]
pub enum CriuArgument {
    Word(String),
    ImagesDir,
    PidFile,
}

/// What a [`CriuArgument`] says.
pub enum Entry {
    Word(Seq<char>),
    ImagesDir,
    PidFile,
}

impl View for CriuArgument {
    type V = Entry;

    open spec fn view(&self) -> Entry {
        match self {
            CriuArgument::Word(word) => Entry::Word(word@),
            CriuArgument::ImagesDir => Entry::ImagesDir,
            CriuArgument::PidFile => Entry::PidFile,
        }
    }
}

/// What a command line says.
pub open spec fn entries(arguments: Seq<CriuArgument>) -> Seq<Entry> {
    arguments.map_values(|argument: CriuArgument| argument@)
}

/// The command line that checkpoints the process tree of `root_pid`. The tree is terminated
/// by a successful dump, since it is not asked to be left running.
pub open spec fn dump_entries(root_pid: u32) -> Seq<Entry> {
    seq![
        Entry::Word("dump"@),
        Entry::Word("--tree"@),
        Entry::Word(decimal(root_pid as nat)),
        Entry::Word("--images-dir"@),
        Entry::ImagesDir,
        Entry::Word("--log-file"@),
        Entry::Word("dump.log"@),
    ]
}

/// The command line that restores a checkpoint, detached from the CRIU process.
pub open spec fn restore_entries() -> Seq<Entry> {
    seq![
        Entry::Word("restore"@),
        Entry::Word("--images-dir"@),
        Entry::ImagesDir,
        Entry::Word("--restore-detached"@),
        Entry::Word("--pidfile"@),
        Entry::PidFile,
        Entry::Word("--log-file"@),
        Entry::Word("restore.log"@),
    ]
}

fn word(text: &str) -> (argument: CriuArgument)
    ensures
        argument@ == Entry::Word(text@),
{
    CriuArgument::Word(text.to_owned())
}

pub fn dump_arguments(root_pid: u32) -> (arguments: Vec<CriuArgument>)
    ensures
        entries(arguments@) == dump_entries(root_pid),
{
    let arguments = vec![
        word("dump"),
        word("--tree"),
        CriuArgument::Word(decimal_text(root_pid as u64)),
        word("--images-dir"),
        CriuArgument::ImagesDir,
        word("--log-file"),
        word("dump.log"),
    ];
    assert(entries(arguments@) =~= dump_entries(root_pid));
    arguments
}

pub fn restore_arguments() -> (arguments: Vec<CriuArgument>)
    ensures
        entries(arguments@) == restore_entries(),
{
    let arguments = vec![
        word("restore"),
        word("--images-dir"),
        CriuArgument::ImagesDir,
        word("--restore-detached"),
        word("--pidfile"),
        CriuArgument::PidFile,
        word("--log-file"),
        word("restore.log"),
    ];
    assert(entries(arguments@) =~= restore_entries());
    arguments
}

/// Controlled CRIU CLI adapter.
#[derive(Clone, Debug, PartialEq, Eq)]
pub struct CriuController {
    pub binary: String,
}

impl Default for CriuController {
    fn default() -> (controller: Self)
        ensures
            controller.binary@ == "criu"@,
    {
        CriuController::new("criu")
    }
}

impl CriuController {
    #[must_use]
    pub fn new(binary: &str) -> (controller: Self)
        ensures
            controller.binary@ == binary@,
    {
        CriuController { binary: binary.to_owned() }
    }
}

/// What the exit of a CRIU command means.
pub fn command_outcome(operation: CriuOperation, success: bool, exit_code: Option<i32>) -> (outcome:
    Result<(), CriuLifecycleError>)
    ensures
        outcome == (if success {
            Ok::<(), CriuLifecycleError>(())
        } else {
            Err(CriuLifecycleError::CommandFailed { operation, exit_code })
        }),
{
    if !success {
        return Err(CriuLifecycleError::CommandFailed { operation, exit_code });
    }
    Ok(())
}

/// The process ID that a pidfile holds.
pub fn parse_pid(pid_text: &str) -> (outcome: Result<u32, CriuLifecycleError>)
    ensures
        outcome == (match parsed_unsigned(trim(pid_text@), u32::MAX as nat) {
            Some(pid) => Ok::<u32, CriuLifecycleError>(pid as u32),
            None => Err(CriuLifecycleError::InvalidPidFile),
        }),
{
    let chars = chars_of(pid_text);
    match parse_unsigned(trimmed(chars.as_slice()), u32::MAX as u64) {
        Some(pid) => Ok(pid as u32),
        None => Err(CriuLifecycleError::InvalidPidFile),
    }
}

/// The tree of a dump is never asked to be left running.
pub proof fn law_dumps_terminate(root_pid: u32)
    ensures
        !dump_entries(root_pid).contains(Entry::Word("--leave-running"@)),
{
    reveal_strlit("--leave-running");
    reveal_strlit("dump");
    reveal_strlit("--tree");
    reveal_strlit("--images-dir");
    reveal_strlit("--log-file");
    reveal_strlit("dump.log");
    lemma_decimal_is_no_option(root_pid as nat);
    let kept = "--leave-running"@;
    assert("dump"@.len() != kept.len() && "--tree"@.len() != kept.len());
    assert("--images-dir"@.len() != kept.len() && "--log-file"@.len() != kept.len());
    assert("dump.log"@.len() != kept.len());
    assert(kept[0] == '-');
    assert forall|i: int| 0 <= i < dump_entries(root_pid).len() implies #[trigger] dump_entries(
        root_pid,
    )[i] != Entry::Word(kept) by {
        let entry = dump_entries(root_pid)[i];
        assert(i == 0 || i == 1 || i == 2 || i == 3 || i == 4 || i == 5 || i == 6);
    }
}

proof fn lemma_decimal_is_no_option(n: nat)
    ensures
        decimal(n).len() > 0,
        decimal(n)[0] != '-',
    decreases n,
{
    if n >= 10 {
        lemma_decimal_is_no_option(n / 10);
        assert(decimal(n)[0] == decimal(n / 10)[0]);
    }
}

proof fn lemma_value_of_first_line(
    line: Seq<char>,
    rest: Seq<Seq<char>>,
    key: Seq<char>,
    i: int,
)
    requires
        0 <= i <= rest.len(),
    ensures
        event_value_from(seq![line] + rest, key, i + 1) == event_value_from(rest, key, i),
    decreases rest.len() - i,
{
    let pieces = seq![line] + rest;
    if i < rest.len() {
        assert(pieces[i + 1] == rest[i]);
        assert(line_at(pieces, i + 1) == line_at(rest, i));
        lemma_value_of_first_line(line, rest, key, i + 1);
    }
}

/// A table is read line by line from the top: a first line that sets the key decides with what
/// stands behind its first space, and any other first line changes nothing. A line is the same
/// with or without the carriage return before its line feed.
pub proof fn law_first_setting_counts(
    key: Seq<char>,
    value: Seq<char>,
    line: Seq<char>,
    rest: Seq<char>,
)
    requires
        !key.contains(' '),
        !key.contains('\n'),
        !value.contains('\n'),
        value.len() > 0 ==> value.last() != '\r',
        !line.contains('\n'),
        line.len() > 0 ==> line.last() != '\r',
        forall|tail: Seq<char>| line != #[trigger] (key + seq![' '] + tail),
    ensures
        event_value(key + seq![' '] + value + seq!['\n'] + rest, key) == Some(value),
        event_value(key + seq![' '] + value + seq!['\r', '\n'] + rest, key) == Some(value),
        event_value(key + seq![' '] + value, key) == Some(value),
        event_value(line + seq!['\n'] + rest, key) == event_value(rest, key),
        event_value(line + seq!['\r', '\n'] + rest, key) == event_value(rest, key),
        event_value(line, key) is None,
        event_value(Seq::empty(), key) is None,
{
    let space = seq![' '];
    let feed = seq!['\n'];
    let setting = key + space + value;
    assert(!setting.contains('\n'));
    assert(setting.last() == (if value.len() > 0 {
        value.last()
    } else {
        ' '
    }));
    law_split(key, ' ', value);
    assert(setting[key.len() as int] == ' ');
    assert(line_sets(setting, key));
    if line_sets(line, key) {
        law_before_and_after(line, ' ');
        assert(line == key + space + after(line, ' '));
    }
    let returned = setting.push('\r');
    let line_returned = line.push('\r');
    assert(!returned.contains('\n')) by {
        if returned.contains('\n') {
            let k = choose|k: int| 0 <= k < returned.len() && returned[k] == '\n';
            assert(setting[k] == '\n');
        }
    }
    assert(!line_returned.contains('\n')) by {
        if line_returned.contains('\n') {
            let k = choose|k: int| 0 <= k < line_returned.len() && line_returned[k] == '\n';
            assert(line[k] == '\n');
        }
    }
    assert(setting + seq!['\r', '\n'] + rest =~= returned + feed + rest);
    assert(line + seq!['\r', '\n'] + rest =~= line_returned + feed + rest);
    assert(returned.drop_last() =~= setting);
    assert(line_returned.drop_last() =~= line);
    lemma_read_first_line(setting, rest, key);
    lemma_read_first_line(line, rest, key);
    lemma_read_first_line(returned, rest, key);
    lemma_read_first_line(line_returned, rest, key);
    law_split(setting, '\n', rest);
    law_split(line, '\n', rest);
    law_split(Seq::empty(), '\n', rest);
    reveal_with_fuel(event_value_from, 2);
    assert(line_at(seq![setting], 0) == setting);
    assert(line_at(seq![line], 0) == line);
    assert(line_at(seq![Seq::<char>::empty()], 0) == Seq::<char>::empty());
}

proof fn lemma_read_first_line(line: Seq<char>, rest: Seq<char>, key: Seq<char>)
    requires
        !line.contains('\n'),
    ensures
        ({
            let shown = if line.len() > 0 && line.last() == '\r' {
                line.drop_last()
            } else {
                line
            };
            event_value(line + seq!['\n'] + rest, key) == (if line_sets(shown, key) {
                Some(after(shown, ' '))
            } else {
                event_value(rest, key)
            })
        }),
{
    law_split(line, '\n', rest);
    let behind = split(rest, '\n');
    let pieces = seq![line] + behind;
    assert(pieces[0] == line);
    lemma_split_is_some(rest);
    lemma_value_of_first_line(line, behind, key, 0);
}

proof fn lemma_split_is_some(s: Seq<char>)
    ensures
        split(s, '\n').len() > 0,
{
    reveal_with_fuel(split, 1);
}

/// A flag is read out of its value alone: it is off for `0`, on for `1`, invalid for anything
/// else and missing where no line sets it.
pub proof fn law_how_flags_are_read(input: Seq<char>, key: &'static str)
    ensures
        event_flag(input, key) == Ok::<bool, LinuxLifecycleError>(false) <==> event_value(
            input,
            key@,
        ) == Some("0"@),
        event_flag(input, key) == Ok::<bool, LinuxLifecycleError>(true) <==> event_value(
            input,
            key@,
        ) == Some("1"@),
        event_value(input, key@) is None <==> event_flag(input, key) == Err::<
            bool,
            LinuxLifecycleError,
        >(LinuxLifecycleError::MissingCgroupEvent { key }),
        event_value(input, key@) matches Some(value) && value != "0"@ && value != "1"@
            ==> event_flag(input, key) == Err::<bool, LinuxLifecycleError>(
            LinuxLifecycleError::InvalidCgroupEvent { key },
        ),
{
    reveal_strlit("0");
    reveal_strlit("1");
    assert("0"@[0] != "1"@[0]);
}

/// A status has both flags as the table has them, and where one of them cannot be read there
/// is none; the first of them is complained of first.
pub proof fn law_how_statuses_are_read(input: Seq<char>)
    ensures
        reported_status(input) matches Ok(status) ==> event_flag(input, "populated") == Ok::<
            bool,
            LinuxLifecycleError,
        >(status.populated) && event_flag(input, "frozen") == Ok::<bool, LinuxLifecycleError>(
            status.frozen,
        ),
        event_flag(input, "populated") is Ok && event_flag(input, "frozen") is Ok
            ==> reported_status(input) is Ok,
        event_flag(input, "populated") matches Err(error) ==> reported_status(input) == Err::<
            CgroupV2Status,
            LinuxLifecycleError,
        >(error),
        event_flag(input, "populated") is Ok && event_flag(input, "frozen") is Err
            ==> reported_status(input) == Err::<CgroupV2Status, LinuxLifecycleError>(
            event_flag(input, "frozen")->Err_0,
        ),
{
}

/// The messages about a table say which key they are about, and those about a failed command
/// which one failed and how it ended.
pub proof fn law_what_host_messages_say(
    message: String,
    key: &'static str,
    operation: CriuOperation,
    code: i32,
)
    ensures
        (LinuxLifecycleError::Io { message }).text() == "linux lifecycle I/O failed: "@ + message@,
        (LinuxLifecycleError::MissingCgroupEvent { key }).text() == "cgroup.events is missing "@
            + key@,
        (LinuxLifecycleError::InvalidCgroupEvent { key }).text() == "cgroup.events has invalid "@
            + key@,
        (CriuLifecycleError::Io { message }).text() == "CRIU I/O failed: "@ + message@,
        (CriuLifecycleError::CommandFailed { operation, exit_code: None }).text() == "CRIU "@
            + operation.text() + " failed with exit code None"@,
        code >= 0 ==> (CriuLifecycleError::CommandFailed {
            operation,
            exit_code: Some(code),
        }).text() == "CRIU "@ + operation.text() + " failed with exit code Some("@ + decimal(
            code as nat,
        ) + ")"@,
        code < 0 ==> (CriuLifecycleError::CommandFailed {
            operation,
            exit_code: Some(code),
        }).text() == "CRIU "@ + operation.text() + " failed with exit code Some(-"@ + decimal(
            (-code) as nat,
        ) + ")"@,
        CriuOperation::Dump.text() == "Dump"@,
        CriuOperation::Restore.text() == "Restore"@,
{
    reveal_strlit(" failed with exit code ");
    reveal_strlit(" failed with exit code None");
    reveal_strlit(" failed with exit code Some(");
    reveal_strlit(" failed with exit code Some(-");
    reveal_strlit("None");
    reveal_strlit("Some(");
    reveal_strlit("-");
    assert(" failed with exit code "@ + "None"@ =~= " failed with exit code None"@);
    assert(" failed with exit code "@ + "Some("@ =~= " failed with exit code Some("@);
    assert(" failed with exit code "@ + "Some("@ + "-"@ =~= " failed with exit code Some(-"@);
    let front = "CRIU "@ + operation.text();
    assert((CriuLifecycleError::CommandFailed { operation, exit_code: None }).text() =~= front
        + " failed with exit code None"@);
    if code >= 0 {
        assert((CriuLifecycleError::CommandFailed { operation, exit_code: Some(code) }).text()
            =~= front + " failed with exit code Some("@ + decimal(code as nat) + ")"@);
    } else {
        assert((CriuLifecycleError::CommandFailed { operation, exit_code: Some(code) }).text()
            =~= front + " failed with exit code Some(-"@ + decimal((-code) as nat) + ")"@);
    }
}

/// A dump names the tree by its process ID and the images by their directory, each right
/// behind its option, and nothing else in it depends on the process; a restore names the images
/// and the pidfile in the same way and leaves the restored tree detached.
pub proof fn law_what_commands_name(root_pid: u32, other: u32)
    ensures
        dump_entries(root_pid)[0] == Entry::Word("dump"@),
        dump_entries(root_pid)[1] == Entry::Word("--tree"@),
        dump_entries(root_pid)[2] matches Entry::Word(pid) && digits_value(pid) == root_pid,
        dump_entries(root_pid)[3] == Entry::Word("--images-dir"@),
        dump_entries(root_pid)[4] == Entry::ImagesDir,
        dump_entries(root_pid).update(2, dump_entries(other)[2]) == dump_entries(other),
        restore_entries()[0] == Entry::Word("restore"@),
        restore_entries()[1] == Entry::Word("--images-dir"@),
        restore_entries()[2] == Entry::ImagesDir,
        restore_entries()[3] == Entry::Word("--restore-detached"@),
        restore_entries()[4] == Entry::Word("--pidfile"@),
        restore_entries()[5] == Entry::PidFile,
{
    law_decimal(root_pid as nat);
    assert(dump_entries(root_pid).update(2, dump_entries(other)[2]) =~= dump_entries(other));
}

/// A pidfile gives its process ID back, with whatever whitespace around it, and one that holds
/// a number that is no process ID is invalid.
pub proof fn law_pidfiles_read_back(
    text: &str,
    front: Seq<char>,
    pid: nat,
    back: Seq<char>,
    outcome: Result<u32, CriuLifecycleError>,
)
    requires
        text@ == front + decimal(pid) + back,
        forall|k: int| 0 <= k < front.len() ==> is_whitespace(#[trigger] front[k]),
        forall|k: int| 0 <= k < back.len() ==> is_whitespace(#[trigger] back[k]),
        call_ensures(parse_pid, (text,), outcome),
    ensures
        pid <= 0xffff_ffff ==> outcome == Ok::<u32, CriuLifecycleError>(pid as u32),
        pid > 0xffff_ffff ==> outcome == Err::<u32, CriuLifecycleError>(
            CriuLifecycleError::InvalidPidFile,
        ),
{
    law_decimal(pid);
    law_trim_undoes_padding(front, decimal(pid), back);
    law_parsed_unsigned(pid, u32::MAX as nat, text@);
}

/// A frozen group ends every wait well, whatever the deadline; a group that is not frozen is
/// polled again before the deadline and never behind it, and what is wrong with a status is
/// handed on.
pub proof fn law_how_waits_go_on(
    status: Result<CgroupV2Status, LinuxLifecycleError>,
    deadline_passed: bool,
    wait: FreezeWait,
)
    requires
        call_ensures(after_poll, (status, deadline_passed), wait),
    ensures
        wait == FreezeWait::Finished(Ok(())) <==> status is Ok && status->Ok_0.frozen,
        wait == FreezeWait::PollAgain <==> status is Ok && !status->Ok_0.frozen
            && !deadline_passed,
        status matches Err(error) ==> wait == FreezeWait::Finished(Err(error)),
        status is Ok && !status->Ok_0.frozen && deadline_passed ==> wait == FreezeWait::Finished(
            Err(LinuxLifecycleError::FreezeTimeout),
        ),
{
}

} // verus!
