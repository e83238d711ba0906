//! Waiting for the password prompt that `rclone` writes to its error stream.

use crate::lines;
use crate::lines::NEWLINE;
use crate::text;
use crate::text::{Level, LogRecord, Stream};
use vstd::prelude::*;

verus! {

/// The bytes of `password:`, with which a prompt ends.
pub open spec fn expected() -> Seq<u8> {
    seq![112u8, 97u8, 115u8, 115u8, 119u8, 111u8, 114u8, 100u8, 58u8]
}

/// Whether `bytes` ends with `end`.
pub open spec fn ends_with(bytes: Seq<u8>, end: Seq<u8>) -> bool {
    bytes.len() >= end.len() && bytes.skip(bytes.len() - end.len()) == end
}

/// How often `password:` occurs in `bytes`: the number of places behind which it has just been
/// written.
pub open spec fn occurrences(bytes: Seq<u8>) -> nat
    decreases bytes.len(),
{
    if bytes.len() == 0 {
        0
    } else {
        occurrences(bytes.drop_last()) + (if ends_with(bytes, expected()) {
            1nat
        } else {
            0nat
        })
    }
}

/// Text that no newline interrupts ends the stream exactly if it ends the last line.
proof fn lemma_end_is_in_tail(bytes: Seq<u8>, end: Seq<u8>)
    requires
        !end.contains(NEWLINE),
    ensures
        ends_with(bytes, end) == ends_with(lines::tail(bytes), end),
    decreases bytes.len(),
{
    let last_line = lines::tail(bytes);
    if end.len() == 0 {
        assert(bytes.skip(bytes.len() as int) == end);
        assert(last_line.skip(last_line.len() as int) == end);
    } else if bytes.len() == 0 {
    } else if bytes.last() == NEWLINE {
        if ends_with(bytes, end) {
            assert(bytes.skip(bytes.len() - end.len()).last() == NEWLINE);
            assert(end.contains(end.last()));
        }
    } else {
        let front = bytes.drop_last();
        let end_front = end.drop_last();
        assert forall|i: int| 0 <= i < end_front.len() implies end_front[i] != NEWLINE by {
            assert(end.contains(end[i]));
        }
        lemma_end_is_in_tail(front, end_front);
        lemma_ends_with_push(front, bytes.last(), end);
        lemma_ends_with_push(lines::tail(front), bytes.last(), end);
        assert(front.push(bytes.last()) == bytes);
    }
}

/// A sequence that grew by one byte ends with `end` if both halves of that do.
proof fn lemma_ends_with_push(front: Seq<u8>, b: u8, end: Seq<u8>)
    requires
        end.len() > 0,
    ensures
        ends_with(front.push(b), end) == (ends_with(front, end.drop_last()) && b == end.last()),
{
    let bytes = front.push(b);
    if bytes.len() >= end.len() {
        let cut = bytes.skip(bytes.len() - end.len());
        assert(cut.drop_last() == front.skip(front.len() - (end.len() - 1)));
        assert(cut.last() == b);
        assert(cut == cut.drop_last().push(cut.last()));
        assert(end == end.drop_last().push(end.last()));
    }
}

/// Occurrences only grow as a stream is read on.
pub proof fn law_occurrences_never_fall(bytes: Seq<u8>, more: Seq<u8>)
    ensures
        occurrences(bytes) <= occurrences(bytes + more),
    decreases more.len(),
{
    if more.len() == 0 {
        assert(bytes + more == bytes);
    } else {
        law_occurrences_never_fall(bytes, more.drop_last());
        assert((bytes + more).drop_last() == bytes + more.drop_last());
    }
}

/// The count is the number of places at which `password:` stands in the stream: the positions
/// from which on its nine bytes are those of `password:`, wherever lines begin and end.
pub proof fn law_prompts_are_counted_by_position(bytes: Seq<u8>, positions: Set<int>)
    requires
        forall|i: int|
            #[trigger] positions.contains(i) <==> (0 <= i && i + 9 <= bytes.len()
                && bytes.subrange(i, i + 9) == seq![
                'p' as u8,
                'a' as u8,
                's' as u8,
                's' as u8,
                'w' as u8,
                'o' as u8,
                'r' as u8,
                'd' as u8,
                ':' as u8,
            ]),
    ensures
        positions.finite(),
        positions.len() == occurrences(bytes),
    decreases bytes.len(),
{
    let word = seq![
        'p' as u8,
        'a' as u8,
        's' as u8,
        's' as u8,
        'w' as u8,
        'o' as u8,
        'r' as u8,
        'd' as u8,
        ':' as u8,
    ];
    assert(word =~= expected());
    if bytes.len() == 0 {
        assert(positions =~= Set::<int>::empty());
    } else {
        let front = bytes.drop_last();
        let new = bytes.len() - 9;
        let before = positions.remove(new);
        assert forall|i: int| #[trigger] before.contains(i) <==> (0 <= i && i + 9 <= front.len()
            && front.subrange(i, i + 9) == word) by {
            if 0 <= i && i + 9 <= front.len() {
                assert(front.subrange(i, i + 9) =~= bytes.subrange(i, i + 9));
            }
        }
        law_prompts_are_counted_by_position(front, before);
        if new >= 0 {
            assert(bytes.skip(new) =~= bytes.subrange(new, new + 9));
        }
        assert(positions.contains(new) == ends_with(bytes, expected()));
        if positions.contains(new) {
            assert(positions =~= before.insert(new));
        } else {
            assert(positions =~= before);
        }
    }
}

/// Completing the word completes a prompt, whatever was written before it and however long its
/// line is: one colon behind `password` makes the count one higher. Any other byte leaves the
/// count as it is.
pub proof fn law_prompt_is_complete_at_its_colon(before: Seq<u8>, b: u8)
    ensures
        ({
            let typed = before + seq![
                'p' as u8,
                'a' as u8,
                's' as u8,
                's' as u8,
                'w' as u8,
                'o' as u8,
                'r' as u8,
                'd' as u8,
            ];
            occurrences(typed.push(':' as u8)) == occurrences(typed) + 1
        }),
        b != ':' as u8 ==> occurrences(before.push(b)) == occurrences(before),
{
    let typed = before + seq![
        'p' as u8,
        'a' as u8,
        's' as u8,
        's' as u8,
        'w' as u8,
        'o' as u8,
        'r' as u8,
        'd' as u8,
    ];
    let whole = typed.push(':' as u8);
    assert(whole.drop_last() == typed);
    assert(whole.skip(whole.len() - 9) =~= expected());
    let grown = before.push(b);
    assert(grown.drop_last() == before);
    if ends_with(grown, expected()) {
        assert(grown.skip(grown.len() - 9)[8] == b);
    }
}

/// The wait ends at byte `n` of `stream`: there `password:` has occurred twice, and at no earlier
/// byte.
pub open spec fn wait_ends_at(stream: Seq<u8>, n: int) -> bool {
    &&& 0 < n <= stream.len()
    &&& occurrences(stream.take(n)) == 2
    &&& forall|m: int| 0 <= m < n ==> occurrences(#[trigger] stream.take(m)) <= 1
}

/// Wherever a stream is read on to, a wait that is owed ends: if `password:` occurs twice or more
/// in it, the wait ends at exactly one of its bytes; if it occurs less often, at none.
pub proof fn law_wait_ends_at_second_prompt(stream: Seq<u8>)
    ensures
        occurrences(stream) >= 2 <==> exists|n: int| wait_ends_at(stream, n),
        forall|n: int, m: int|
            #![trigger wait_ends_at(stream, n), wait_ends_at(stream, m)]
            wait_ends_at(stream, n) && wait_ends_at(stream, m) ==> n == m,
    decreases stream.len(),
{
    if occurrences(stream) >= 2 {
        let front = stream.drop_last();
        if occurrences(front) >= 2 {
            law_wait_ends_at_second_prompt(front);
            let n = choose|n: int| wait_ends_at(front, n);
            assert forall|m: int| 0 <= m <= n implies #[trigger] stream.take(m) == front.take(m) by {}
            assert(wait_ends_at(stream, n));
        } else {
            let n = stream.len() as int;
            assert(stream.take(n) == stream);
            assert forall|m: int| 0 <= m < n implies occurrences(#[trigger] stream.take(m)) <= 1 by {
                law_occurrences_never_fall(stream.take(m), front.skip(m));
                assert(stream.take(m) + front.skip(m) == front);
            }
            assert(wait_ends_at(stream, n));
        }
    }
    if exists|n: int| wait_ends_at(stream, n) {
        let n = choose|n: int| wait_ends_at(stream, n);
        law_occurrences_never_fall(stream.take(n), stream.skip(n));
        assert(stream.take(n) + stream.skip(n) == stream);
    }
}

/// What to do after a byte has been read.
#[derive(Debug, PartialEq, Eq)]
pub enum PromptStep {
    /// Read on.
    Continue,
    /// Log the line that just ended and read on.
    Line(LogRecord),
    /// The second prompt is complete: log the line it stands in and stop reading.
    Found(LogRecord),
}

/// Reads the error stream of a process until `password:` has been written to it twice.
pub struct PromptScanner {
    buf: Vec<u8>,
    count: usize,
    pid: Option<u32>,
    seen: Ghost<Seq<u8>>,
}

impl PromptScanner {
    /// Everything that has been read so far.
    pub closed spec fn seen(&self) -> Seq<u8> {
        self.seen@
    }

    /// The process that is read from.
    pub closed spec fn pid(&self) -> Option<u32> {
        self.pid
    }

    /// The scanner keeps the line that is being written and the number of prompts so far.
    pub closed spec fn keeps_up(&self) -> bool {
        &&& self.buf@ == lines::tail(self.seen@)
        &&& self.count == occurrences(self.seen@)
    }

    /// The scanner is up to date and still waits for the second prompt.
    pub open spec fn wf(&self) -> bool {
        self.keeps_up() && occurrences(self.seen()) <= 1
    }

    /// A scanner for process `pid`, before anything has been read.
    pub fn new(pid: Option<u32>) -> (scanner: PromptScanner)
        ensures
            scanner.wf(),
            scanner.seen() == Seq::<u8>::empty(),
            scanner.pid() == pid,
    {
        PromptScanner { buf: Vec::new(), count: 0, pid, seen: Ghost(Seq::empty()) }
    }

    /// Whether the current line ends with `password:`.
    fn at_prompt(&self) -> (at: bool)
        ensures
            at == ends_with(self.buf@, expected()),
    {
        let len = self.buf.len();
        if len < 9 {
            return false;
        }
        let at = self.buf[len - 9] == 112 && self.buf[len - 8] == 97 && self.buf[len - 7] == 115
            && self.buf[len - 6] == 115 && self.buf[len - 5] == 119 && self.buf[len - 4] == 111
            && self.buf[len - 3] == 114 && self.buf[len - 2] == 100 && self.buf[len - 1] == 58;
        proof {
            let cut = self.buf@.skip(len - 9);
            assert(cut[0] == self.buf@[len - 9]);
            assert(cut[1] == self.buf@[len - 8]);
            assert(cut[2] == self.buf@[len - 7]);
            assert(cut[3] == self.buf@[len - 6]);
            assert(cut[4] == self.buf@[len - 5]);
            assert(cut[5] == self.buf@[len - 4]);
            assert(cut[6] == self.buf@[len - 3]);
            assert(cut[7] == self.buf@[len - 2]);
            assert(cut[8] == self.buf@[len - 1]);
            assert(at ==> cut =~= expected());
        }
        at
    }

    /// The record for the line that is being written.
    fn current_line(&self) -> (record: LogRecord)
        ensures
            record@ == lines::record_of(Level::Info, self.pid, Stream::Stderr, self.buf@),
            record.level == Level::Info,
            record.text@ == text::line_text(
                self.pid,
                Stream::Stderr,
                text::lossy_text(self.buf@),
            ),
            text::is_shown_faithfully(self.buf@),
    {
        let line = text::from_utf8_lossy(self.buf.as_slice());
        text::line_record(Level::Info, self.pid, Stream::Stderr, line.as_str())
    }

    /// Takes in the next byte of the stream. The scanner stops at the byte that completes the
    /// second `password:`, wherever in the stream the first one was.
    pub fn read(&mut self, b: u8) -> (step: PromptStep)
        requires
            old(self).wf(),
        ensures
            final(self).pid() == old(self).pid(),
            final(self).seen() == old(self).seen().push(b),
            step is Found <==> occurrences(old(self).seen().push(b)) == 2,
            step is Line <==> b == NEWLINE,
            step !is Found ==> final(self).wf(),
            step matches PromptStep::Found(record) ==> record@ == lines::record_of(
                Level::Info,
                old(self).pid(),
                Stream::Stderr,
                lines::tail(old(self).seen().push(b)),
            ),
            step matches PromptStep::Found(record) ==> record.level == Level::Info && record.text@
                == text::line_text(
                old(self).pid(),
                Stream::Stderr,
                text::lossy_text(lines::tail(old(self).seen().push(b))),
            ),
            step matches PromptStep::Line(record) ==> record.level == Level::Info && record.text@
                == text::line_text(
                old(self).pid(),
                Stream::Stderr,
                text::lossy_text(lines::tail(old(self).seen())),
            ),
            step is Found ==> text::is_shown_faithfully(lines::tail(old(self).seen().push(b))),
            step is Line ==> text::is_shown_faithfully(lines::tail(old(self).seen())),
            step matches PromptStep::Line(record) ==> record@ == lines::record_of(
                Level::Info,
                old(self).pid(),
                Stream::Stderr,
                lines::tail(old(self).seen()),
            ),
    {
        let ghost before = self.seen@;
        let ghost after = before.push(b);
        proof {
            assert(after.drop_last() == before);
            assert forall|i: int| 0 <= i < expected().len() implies expected()[i] != NEWLINE by {}
            lemma_end_is_in_tail(after, expected());
        }
        self.seen = Ghost(after);
        if b == NEWLINE {
            let record = self.current_line();
            self.buf.clear();
            PromptStep::Line(record)
        } else {
            self.buf.push(b);
            if self.at_prompt() {
                self.count += 1;
                if self.count > 1 {
                    return PromptStep::Found(self.current_line());
                }
            }
            PromptStep::Continue
        }
    }

    /// The record to log when the stream ends or reading it fails before the second prompt: the
    /// line that was being written.
    pub fn read_failed(&self) -> (record: LogRecord)
        requires
            self.wf(),
        ensures
            record@ == lines::record_of(
                Level::Info,
                self.pid(),
                Stream::Stderr,
                lines::tail(self.seen()),
            ),
            record.level == Level::Info,
            record.text@ == text::line_text(
                self.pid(),
                Stream::Stderr,
                text::lossy_text(lines::tail(self.seen())),
            ),
            text::is_shown_faithfully(lines::tail(self.seen())),
    {
        self.current_line()
    }
}

} // verus!
