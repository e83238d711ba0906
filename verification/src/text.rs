//! The text of the lines that the daemon logs for an `rclone` process.

use vstd::prelude::*;

verus! {

/// How much a log record matters.
#[derive(Debug, Clone, Copy, PartialEq, Eq, Structural)]
pub enum Level {
    Info,
    Error,
}

/// One record for the log.
#[derive(Debug, PartialEq, Eq)]
pub struct LogRecord {
    pub level: Level,
    pub text: String,
}

/// What a [`LogRecord`] says.
pub struct LogRecordView {
    pub level: Level,
    pub text: Seq<char>,
}

impl View for LogRecord {
    type V = LogRecordView;

    open spec fn view(&self) -> LogRecordView {
        LogRecordView { level: self.level, text: self.text@ }
    }
}

/// The stream of a process that a line was read from.
#[derive(Debug, Clone, Copy, PartialEq, Eq, Structural)]
pub enum Stream {
    Stdout,
    Stderr,
}

/// The decimal digit `d`.
pub open spec fn digit(d: nat) -> char
    recommends
        d < 10,
{
    (('0' as u32) + d) as char
}

/// The decimal notation of `n`, without leading zeros.
pub open spec fn decimal(n: nat) -> Seq<char>
    decreases n,
{
    if n < 10 {
        seq![digit(n)]
    } else {
        decimal(n / 10).push(digit(n % 10))
    }
}

/// How a process identifier that may be unknown is written in the log.
pub open spec fn pid_text(pid: Option<u32>) -> Seq<char> {
    match pid {
        Some(n) => "Some("@ + decimal(n as nat) + ")"@,
        None => "None"@,
    }
}

/// The name of a stream in the log.
pub open spec fn stream_text(stream: Stream) -> Seq<char> {
    match stream {
        Stream::Stdout => "stdout"@,
        Stream::Stderr => "stderr"@,
    }
}

/// The text that says that process `pid` wrote `line` to `stream`.
pub open spec fn line_text(pid: Option<u32>, stream: Stream, line: Seq<char>) -> Seq<char> {
    "Process["@ + pid_text(pid) + "], "@ + stream_text(stream) + ": "@ + line
}

/// The text that says that reading `stream` of process `pid` failed with `cause`.
pub open spec fn read_failure_text(pid: Option<u32>, stream: Stream, cause: Seq<char>) -> Seq<
    char,
> {
    "Process["@ + pid_text(pid) + (match stream {
        Stream::Stdout => "], Error to read from out stream: "@,
        Stream::Stderr => "], Error to read from err stream: "@,
    }) + cause
}

/// What `String::from_utf8_lossy` of std makes of `bytes`.
pub uninterp spec fn lossy_text(bytes: Seq<u8>) -> Seq<char>;

/// A line that is valid UTF-8 is shown as exactly the characters that it encodes.
pub open spec fn is_shown_faithfully(line: Seq<u8>) -> bool {
    vstd::utf8::valid_utf8(line) ==> lossy_text(line) == vstd::utf8::decode_utf8(line)
}

/// Calls `String::from_utf8_lossy` of std.
///
/// Trusted: the text depends on the bytes alone, and bytes that are valid UTF-8 give exactly the
/// characters they encode. How many replacement characters stand for bytes that are not valid is
/// left unsaid.
#[verifier::external_body]
pub(crate) fn from_utf8_lossy(bytes: &[u8]) -> (text: String)
    ensures
        text@ == lossy_text(bytes@),
        vstd::utf8::valid_utf8(bytes@) ==> text@ == vstd::utf8::decode_utf8(bytes@),
{
    String::from_utf8_lossy(bytes).into_owned()
}

/// The digit `d` as a string.
fn digit_str(d: u32) -> (s: &'static str)
    requires
        d < 10,
    ensures
        s@ == seq![digit(d as nat)],
{
    proof {
        reveal_strlit("0");
        reveal_strlit("1");
        reveal_strlit("2");
        reveal_strlit("3");
        reveal_strlit("4");
        reveal_strlit("5");
        reveal_strlit("6");
        reveal_strlit("7");
        reveal_strlit("8");
        reveal_strlit("9");
    }
    match d {
        0 => "0",
        1 => "1",
        2 => "2",
        3 => "3",
        4 => "4",
        5 => "5",
        6 => "6",
        7 => "7",
        8 => "8",
        _ => "9",
    }
}

/// Writes `n` in decimal notation.
pub fn format_decimal(n: u32) -> (text: String)
    ensures
        text@ == decimal(n as nat),
    decreases n,
{
    if n < 10 {
        digit_str(n).to_string()
    } else {
        let mut text = format_decimal(n / 10);
        text.append(digit_str(n % 10));
        text
    }
}

/// Writes a process identifier that may be unknown as the log shows it.
pub fn format_pid(pid: Option<u32>) -> (text: String)
    ensures
        text@ == pid_text(pid),
        pid is None ==> text@ == "None"@,
        pid is Some ==> text@ == "Some("@ + decimal(pid->0 as nat) + ")"@,
{
    match pid {
        Some(n) => {
            let mut text = "Some(".to_string();
            text.append(format_decimal(n).as_str());
            text.append(")");
            text
        },
        None => "None".to_string(),
    }
}

/// The record that says that process `pid` wrote `line` to `stream`.
pub fn line_record(level: Level, pid: Option<u32>, stream: Stream, line: &str) -> (record:
    LogRecord)
    ensures
        record@ == (LogRecordView { level, text: line_text(pid, stream, line@) }),
        record.level == level,
        record.text@ == line_text(pid, stream, line@),
{
    let mut text = "Process[".to_string();
    text.append(format_pid(pid).as_str());
    text.append("], ");
    text.append(
        match stream {
            Stream::Stdout => "stdout",
            Stream::Stderr => "stderr",
        },
    );
    text.append(": ");
    text.append(line);
    LogRecord { level, text }
}

/// The record that says that reading `stream` of process `pid` failed with `cause`.
pub fn read_failure_record(pid: Option<u32>, stream: Stream, cause: &str) -> (record: LogRecord)
    ensures
        record@ == (LogRecordView {
            level: Level::Error,
            text: read_failure_text(pid, stream, cause@),
        }),
        record.level == Level::Error,
        record.text@ == read_failure_text(pid, stream, cause@),
{
    let mut text = "Process[".to_string();
    text.append(format_pid(pid).as_str());
    text.append(
        match stream {
            Stream::Stdout => "], Error to read from out stream: ",
            Stream::Stderr => "], Error to read from err stream: ",
        },
    );
    text.append(cause);
    LogRecord { level: Level::Error, text }
}

/// The number that a text of decimal digits stands for.
pub open spec fn value_of(text: Seq<char>) -> int
    decreases text.len(),
{
    if text.len() == 0 {
        0
    } else {
        10 * value_of(text.drop_last()) + (text.last() as int - '0' as int)
    }
}

/// A number that was written can be read back: its notation consists of digits, stands for the
/// number, and does not begin with a zero, except that zero itself is a single one. No other text
/// has these properties.
pub proof fn law_number_reads_back(n: nat)
    ensures
        forall|i: int| 0 <= i < decimal(n).len() ==> '0' <= #[trigger] decimal(n)[i] <= '9',
        value_of(decimal(n)) == n,
        decimal(n).len() > 0,
        decimal(n)[0] == '0' ==> n == 0 && decimal(n).len() == 1,
    decreases n,
{
    let text = decimal(n);
    if n < 10 {
        assert(text.drop_last() =~= Seq::<char>::empty());
        assert(value_of(text.drop_last()) == 0);
    } else {
        law_number_reads_back(n / 10);
        assert(text.drop_last() =~= decimal(n / 10));
        assert(text[0] == decimal(n / 10)[0]);
        assert(text.last() == digit(n % 10));
    }
}

/// Different process identifiers are written differently.
pub proof fn law_pids_are_told_apart(first: Option<u32>, second: Option<u32>)
    requires
        first != second,
    ensures
        pid_text(first) != pid_text(second),
{
    reveal_strlit("Some(");
    reveal_strlit(")");
    reveal_strlit("None");
    if pid_text(first) == pid_text(second) {
        if let (Some(a), Some(b)) = (first, second) {
            let len = pid_text(first).len() - 1;
            assert(pid_text(first).subrange(5, len) =~= decimal(a as nat));
            assert(pid_text(second).subrange(5, len) =~= decimal(b as nat));
            law_number_reads_back(a as nat);
            law_number_reads_back(b as nat);
        } else {
            assert("None"@[0] == 'N');
            assert("Some("@[0] == 'S');
            if let Some(a) = first {
                assert(pid_text(first)[0] == 'S');
            }
            if let Some(b) = second {
                assert(pid_text(second)[0] == 'S');
            }
        }
    }
}

/// A line is logged whole: its text stands unchanged behind a head that names the process and the
/// stream, and the head is the same for all lines of that stream.
pub proof fn law_line_stands_behind_its_head(n: u32, line: Seq<char>)
    ensures
        line_text(Some(n), Stream::Stdout, line) == "Process[Some("@ + decimal(n as nat)
            + ")], stdout: "@ + line,
        line_text(Some(n), Stream::Stderr, line) == "Process[Some("@ + decimal(n as nat)
            + ")], stderr: "@ + line,
        line_text(None, Stream::Stdout, line) == "Process[None], stdout: "@ + line,
        line_text(None, Stream::Stderr, line) == "Process[None], stderr: "@ + line,
{
    reveal_strlit("Process[");
    reveal_strlit("], ");
    reveal_strlit(": ");
    reveal_strlit("stdout");
    reveal_strlit("stderr");
    reveal_strlit("Some(");
    reveal_strlit(")");
    reveal_strlit("None");
    reveal_strlit("Process[Some(");
    reveal_strlit(")], stdout: ");
    reveal_strlit(")], stderr: ");
    reveal_strlit("Process[None], stdout: ");
    reveal_strlit("Process[None], stderr: ");
    assert(line_text(Some(n), Stream::Stdout, line) =~= "Process[Some("@ + decimal(n as nat)
        + ")], stdout: "@ + line);
    assert(line_text(Some(n), Stream::Stderr, line) =~= "Process[Some("@ + decimal(n as nat)
        + ")], stderr: "@ + line);
    assert(line_text(None, Stream::Stdout, line) =~= "Process[None], stdout: "@ + line);
    assert(line_text(None, Stream::Stderr, line) =~= "Process[None], stderr: "@ + line);
}

/// A failure to read is logged with its cause unchanged behind a head that names the process and
/// the stream.
pub proof fn law_cause_stands_behind_its_head(n: u32, cause: Seq<char>)
    ensures
        read_failure_text(Some(n), Stream::Stdout, cause) == "Process[Some("@ + decimal(n as nat)
            + ")], Error to read from out stream: "@ + cause,
        read_failure_text(Some(n), Stream::Stderr, cause) == "Process[Some("@ + decimal(n as nat)
            + ")], Error to read from err stream: "@ + cause,
        read_failure_text(None, Stream::Stdout, cause)
            == "Process[None], Error to read from out stream: "@ + cause,
        read_failure_text(None, Stream::Stderr, cause)
            == "Process[None], Error to read from err stream: "@ + cause,
{
    reveal_strlit("Process[");
    reveal_strlit("], Error to read from out stream: ");
    reveal_strlit("], Error to read from err stream: ");
    reveal_strlit("Some(");
    reveal_strlit(")");
    reveal_strlit("None");
    reveal_strlit("Process[Some(");
    reveal_strlit(")], Error to read from out stream: ");
    reveal_strlit(")], Error to read from err stream: ");
    reveal_strlit("Process[None], Error to read from out stream: ");
    reveal_strlit("Process[None], Error to read from err stream: ");
    assert(read_failure_text(Some(n), Stream::Stdout, cause) =~= "Process[Some("@ + decimal(
        n as nat,
    ) + ")], Error to read from out stream: "@ + cause);
    assert(read_failure_text(Some(n), Stream::Stderr, cause) =~= "Process[Some("@ + decimal(
        n as nat,
    ) + ")], Error to read from err stream: "@ + cause);
    assert(read_failure_text(None, Stream::Stdout, cause)
        =~= "Process[None], Error to read from out stream: "@ + cause);
    assert(read_failure_text(None, Stream::Stderr, cause)
        =~= "Process[None], Error to read from err stream: "@ + cause);
}

} // verus!
