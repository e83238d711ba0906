use rclone_mount_ext::lines::LineLogger;
use rclone_mount_ext::prompt::{PromptScanner, PromptStep};
use rclone_mount_ext::text::{
    format_decimal, format_pid, line_record, read_failure_record, Level, Stream,
};

fn texts(logger: &mut LineLogger, chunk: &[u8]) -> Vec<String> {
    logger.read(chunk).records.into_iter().map(|r| r.text).collect()
}

/// Feeds `bytes` and returns the logged texts and where the wait ended.
fn scan(scanner: &mut PromptScanner, bytes: &[u8]) -> (Vec<String>, Option<usize>) {
    let mut logged = vec![];
    for (i, &b) in bytes.iter().enumerate() {
        match scanner.read(b) {
            PromptStep::Continue => {}
            PromptStep::Line(record) => {
                assert_eq!(record.level, Level::Info);
                logged.push(record.text);
            }
            PromptStep::Found(record) => {
                assert_eq!(record.level, Level::Info);
                logged.push(record.text);
                return (logged, Some(i + 1));
            }
        }
    }
    (logged, None)
}

#[test]
fn decimal_agrees_with_std() {
    for n in [0, 1, 9, 10, 11, 99, 100, 101, 65535, 1000000, u32::MAX] {
        assert_eq!(format_decimal(n), n.to_string());
    }
}

#[test]
fn pid_agrees_with_std() {
    for pid in [None, Some(0), Some(42), Some(u32::MAX)] {
        assert_eq!(format_pid(pid), format!("{pid:?}"));
    }
}

#[test]
fn record_texts() {
    let record = line_record(Level::Info, Some(7), Stream::Stdout, "hello");
    assert_eq!(record.text, "Process[Some(7)], stdout: hello");
    assert_eq!(record.level, Level::Info);
    let record = line_record(Level::Error, None, Stream::Stderr, "");
    assert_eq!(record.text, "Process[None], stderr: ");
    assert_eq!(record.level, Level::Error);
    let record = read_failure_record(Some(1), Stream::Stderr, "x");
    assert_eq!(record.text, "Process[Some(1)], Error to read from err stream: x");
    let record = read_failure_record(Some(1), Stream::Stdout, "x");
    assert_eq!(record.text, "Process[Some(1)], Error to read from out stream: x");
    assert_eq!(record.level, Level::Error);
}

#[test]
fn each_complete_line_is_logged() {
    let mut logger = LineLogger::new(Some(5), Stream::Stdout);
    let step = logger.read(b"one\ntwo\n\nthr");
    assert!(!step.done);
    let got: Vec<_> = step.records.iter().map(|r| (r.level, r.text.as_str())).collect();
    assert_eq!(
        got,
        vec![
            (Level::Info, "Process[Some(5)], stdout: one"),
            (Level::Info, "Process[Some(5)], stdout: two"),
            (Level::Info, "Process[Some(5)], stdout: "),
        ]
    );
    assert_eq!(texts(&mut logger, b"ee\n"), vec!["Process[Some(5)], stdout: three"]);
}

#[test]
fn error_stream_is_logged_as_error() {
    let mut logger = LineLogger::new(None, Stream::Stderr);
    let step = logger.read(b"bad\n");
    assert_eq!(step.records[0].level, Level::Error);
    assert_eq!(step.records[0].text, "Process[None], stderr: bad");
    let record = logger.read_failed("gone");
    assert_eq!(record.text, "Process[None], Error to read from err stream: gone");
}

#[test]
fn end_of_stream_drops_the_unfinished_line() {
    let mut logger = LineLogger::new(None, Stream::Stdout);
    assert!(texts(&mut logger, b"never ended").is_empty());
    let step = logger.read(b"");
    assert!(step.done);
    assert!(step.records.is_empty());
}

#[test]
fn chunks_do_not_matter() {
    let stream = b"a\nbc\n\ndef\ngh";
    let mut whole = LineLogger::new(None, Stream::Stdout);
    let expected = texts(&mut whole, stream);
    assert_eq!(expected.len(), 4);
    for cut in 1..stream.len() {
        let mut logger = LineLogger::new(None, Stream::Stdout);
        let mut got = texts(&mut logger, &stream[..cut]);
        got.extend(texts(&mut logger, &stream[cut..]));
        assert_eq!(got, expected);
    }
}

#[test]
fn invalid_bytes_are_replaced() {
    let mut logger = LineLogger::new(None, Stream::Stdout);
    let got = texts(&mut logger, b"\xc3\xa4\xff\n");
    assert_eq!(got, vec!["Process[None], stdout: \u{e4}\u{fffd}"]);
}

#[test]
fn second_prompt_ends_the_wait() {
    let mut scanner = PromptScanner::new(Some(2));
    let (logged, end) = scan(&mut scanner, b"Enter password:\npassword:rest");
    assert_eq!(end, Some(25));
    assert_eq!(
        logged,
        vec![
            "Process[Some(2)], stderr: Enter password:",
            "Process[Some(2)], stderr: password:",
        ]
    );
}

#[test]
fn both_prompts_may_stand_in_one_line() {
    let mut scanner = PromptScanner::new(None);
    let (logged, end) = scan(&mut scanner, b"password: x password:");
    assert_eq!(end, Some(21));
    assert_eq!(logged, vec!["Process[None], stderr: password: x password:"]);
}

#[test]
fn one_prompt_is_not_enough() {
    let mut scanner = PromptScanner::new(None);
    let (logged, end) = scan(&mut scanner, b"password:\npass\nword: Password: passwor");
    assert_eq!(end, None);
    assert_eq!(logged.len(), 2);
    let record = scanner.read_failed();
    assert_eq!(record.level, Level::Info);
    assert_eq!(record.text, "Process[None], stderr: word: Password: passwor");
}

#[test]
fn nothing_read_leaves_an_empty_line() {
    assert_eq!(PromptScanner::new(None).read_failed().text, "Process[None], stderr: ");
}

#[test]
fn prompt_lines_are_decoded() {
    let mut scanner = PromptScanner::new(None);
    let (logged, _) = scan(&mut scanner, b"\xff\n");
    assert_eq!(logged, vec!["Process[None], stderr: \u{fffd}"]);
}
