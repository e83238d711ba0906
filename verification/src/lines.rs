//! Cutting the output of a process into lines for the log.

use crate::text;
use crate::text::{Level, LogRecord, LogRecordView, Stream};
use vstd::prelude::*;

verus! {

/// The byte that ends a line.
pub const NEWLINE: u8 = 10;

/// What stands in `bytes` behind its last newline.
pub open spec fn tail(bytes: Seq<u8>) -> Seq<u8>
    decreases bytes.len(),
{
    if bytes.len() == 0 || bytes.last() == NEWLINE {
        Seq::empty()
    } else {
        tail(bytes.drop_last()).push(bytes.last())
    }
}

/// The lines of `bytes` that a newline ends, in order and without their newlines.
pub open spec fn lines(bytes: Seq<u8>) -> Seq<Seq<u8>>
    decreases bytes.len(),
{
    if bytes.len() == 0 {
        Seq::empty()
    } else if bytes.last() == NEWLINE {
        lines(bytes.drop_last()).push(tail(bytes.drop_last()))
    } else {
        lines(bytes.drop_last())
    }
}

/// The lines put together again, a newline behind each.
pub open spec fn joined(lines: Seq<Seq<u8>>) -> Seq<u8>
    decreases lines.len(),
{
    if lines.len() == 0 {
        Seq::empty()
    } else {
        joined(lines.drop_last()) + lines.last().push(NEWLINE)
    }
}

/// The level at which the lines of `stream` are logged.
pub open spec fn level_of(stream: Stream) -> Level {
    match stream {
        Stream::Stdout => Level::Info,
        Stream::Stderr => Level::Error,
    }
}

/// The record for one line of bytes.
pub open spec fn record_of(level: Level, pid: Option<u32>, stream: Stream, line: Seq<u8>) ->
    LogRecordView {
    LogRecordView { level, text: text::line_text(pid, stream, text::lossy_text(line)) }
}

/// The records for `lines`.
pub open spec fn records_of(
    level: Level,
    pid: Option<u32>,
    stream: Stream,
    lines: Seq<Seq<u8>>,
) -> Seq<LogRecordView> {
    lines.map_values(|line: Seq<u8>| record_of(level, pid, stream, line))
}

/// What the records of a list say.
pub open spec fn views(records: Seq<LogRecord>) -> Seq<LogRecordView> {
    records.map_values(|record: LogRecord| record@)
}

/// The first line is what stands before the first newline, and the rest of the bytes gives the
/// other lines and the tail; where there is no newline, there is no line, and all is tail. For
/// every stream this says what its lines and its tail are.
pub proof fn law_first_newline_ends_the_first_line(bytes: Seq<u8>, p: int)
    requires
        0 <= p <= bytes.len(),
        forall|j: int| 0 <= j < p ==> bytes[j] != 10u8,
        p < bytes.len() ==> bytes[p] == 10u8,
    ensures
        p == bytes.len() ==> lines(bytes) == Seq::<Seq<u8>>::empty() && tail(bytes) == bytes,
        p < bytes.len() ==> lines(bytes) == seq![bytes.take(p)] + lines(bytes.skip(p + 1)) && tail(
            bytes,
        ) == tail(bytes.skip(p + 1)),
{
    if p == bytes.len() {
        lemma_no_newline(bytes);
        assert(lines(bytes) =~= Seq::<Seq<u8>>::empty());
    } else {
        let first = bytes.take(p + 1);
        let rest = bytes.skip(p + 1);
        law_chunks_do_not_matter(first, rest);
        assert(first + rest =~= bytes);
        assert(first.drop_last() =~= bytes.take(p));
        lemma_no_newline(bytes.take(p));
        assert(lines(bytes.take(p)) =~= Seq::<Seq<u8>>::empty());
        assert(lines(first) =~= seq![bytes.take(p)]);
        assert(tail(first) + rest =~= rest);
    }
}

/// Each line gives one record, in order, at the level asked for, with the line's text unchanged
/// behind the head that names the process and the stream.
pub proof fn law_each_line_is_one_record(
    level: Level,
    n: u32,
    stream: Stream,
    lines: Seq<Seq<u8>>,
    i: int,
)
    requires
        0 <= i < lines.len(),
    ensures
        records_of(level, Some(n), stream, lines).len() == lines.len(),
        records_of(level, None, stream, lines).len() == lines.len(),
        records_of(level, Some(n), stream, lines)[i].level == level,
        records_of(level, None, stream, lines)[i].level == level,
        records_of(level, Some(n), stream, lines)[i].text == "Process[Some("@ + text::decimal(
            n as nat,
        ) + (match stream {
            Stream::Stdout => ")], stdout: "@,
            Stream::Stderr => ")], stderr: "@,
        }) + text::lossy_text(lines[i]),
        records_of(level, None, stream, lines)[i].text == (match stream {
            Stream::Stdout => "Process[None], stdout: "@,
            Stream::Stderr => "Process[None], stderr: "@,
        }) + text::lossy_text(lines[i]),
        record_of(level, Some(n), stream, lines[i]) == records_of(
            level,
            Some(n),
            stream,
            lines,
        )[i],
        record_of(level, None, stream, lines[i]) == records_of(level, None, stream, lines)[i],
{
    text::law_line_stands_behind_its_head(n, text::lossy_text(lines[i]));
}

/// What standard output says is information, and what the error stream says is an error.
pub proof fn law_errors_are_logged_as_errors(stream: Stream)
    ensures
        level_of(stream) == Level::Error <==> stream == Stream::Stderr,
        level_of(stream) == Level::Info <==> stream == Stream::Stdout,
{
}

/// Splitting loses nothing: the ended lines, each with its newline, and the tail make up the
/// bytes again, and no newline is left inside a line or the tail.
pub proof fn law_split_is_lossless(bytes: Seq<u8>)
    ensures
        joined(lines(bytes)) + tail(bytes) == bytes,
        !tail(bytes).contains(NEWLINE),
        forall|i: int| 0 <= i < lines(bytes).len() ==> !(#[trigger] lines(bytes)[i]).contains(NEWLINE),
    decreases bytes.len(),
{
    if bytes.len() > 0 {
        let front = bytes.drop_last();
        law_split_is_lossless(front);
        assert(front.push(bytes.last()) == bytes);
        if bytes.last() == NEWLINE {
            assert(lines(bytes).drop_last() == lines(front));
            assert(joined(lines(bytes)) == joined(lines(front)) + tail(front).push(NEWLINE));
            assert(joined(lines(bytes)) + tail(bytes) == (joined(lines(front)) + tail(front)).push(
                NEWLINE,
            ));
        } else {
            assert(joined(lines(bytes)) + tail(bytes) == (joined(lines(front)) + tail(front)).push(
                bytes.last(),
            ));
            assert forall|i: int| 0 <= i < tail(bytes).len() implies tail(bytes)[i] != NEWLINE by {
                if i < tail(front).len() {
                    assert(tail(front).contains(tail(front)[i]));
                }
            }
        }
    }
}

/// Where a stream is cut into chunks does not matter: reading `first` and then `second` ends the
/// same lines and leaves the same tail as reading them at once.
pub proof fn law_chunks_do_not_matter(first: Seq<u8>, second: Seq<u8>)
    ensures
        lines(first + second) == lines(first) + lines(tail(first) + second),
        tail(first + second) == tail(tail(first) + second),
    decreases second.len(),
{
    if second.len() == 0 {
        assert(first + second == first);
        assert(tail(first) + second == tail(first));
        law_split_is_lossless(first);
        lemma_no_newline(tail(first));
    } else {
        let front = second.drop_last();
        law_chunks_do_not_matter(first, front);
        assert((first + second).drop_last() == first + front);
        assert((tail(first) + second).drop_last() == tail(first) + front);
        assert((first + second).last() == second.last());
        assert((tail(first) + second).last() == second.last());
        assert(lines(first + second) == lines(first) + lines(tail(first) + second));
    }
}

/// The chunks of a stream put together.
pub open spec fn concatenated(chunks: Seq<Seq<u8>>) -> Seq<u8>
    decreases chunks.len(),
{
    if chunks.len() == 0 {
        Seq::empty()
    } else {
        concatenated(chunks.drop_last()) + chunks.last()
    }
}

/// What is pending when `chunks` have been read one after another.
pub open spec fn pending_after(chunks: Seq<Seq<u8>>) -> Seq<u8>
    decreases chunks.len(),
{
    if chunks.len() == 0 {
        Seq::empty()
    } else {
        tail(pending_after(chunks.drop_last()) + chunks.last())
    }
}

/// The lines that were completed when `chunks` have been read one after another.
pub open spec fn completed_by(chunks: Seq<Seq<u8>>) -> Seq<Seq<u8>>
    decreases chunks.len(),
{
    if chunks.len() == 0 {
        Seq::empty()
    } else {
        completed_by(chunks.drop_last()) + lines(
            pending_after(chunks.drop_last()) + chunks.last(),
        )
    }
}

/// Read in however many chunks, a stream gives exactly its own lines.
pub proof fn law_stream_gives_its_lines(chunks: Seq<Seq<u8>>)
    ensures
        completed_by(chunks) == lines(concatenated(chunks)),
        pending_after(chunks) == tail(concatenated(chunks)),
    decreases chunks.len(),
{
    if chunks.len() > 0 {
        law_stream_gives_its_lines(chunks.drop_last());
        law_chunks_do_not_matter(concatenated(chunks.drop_last()), chunks.last());
    }
}

/// Bytes without a newline are all tail.
proof fn lemma_no_newline(bytes: Seq<u8>)
    requires
        !bytes.contains(NEWLINE),
    ensures
        tail(bytes) == bytes,
        lines(bytes).len() == 0,
    decreases bytes.len(),
{
    if bytes.len() > 0 {
        let front = bytes.drop_last();
        assert(bytes.contains(bytes.last()));
        assert forall|i: int| 0 <= i < front.len() implies front[i] != NEWLINE by {
            assert(bytes.contains(bytes[i]));
        }
        lemma_no_newline(front);
        assert(front.push(bytes.last()) == bytes);
    }
}

/// Collects the output of a process and makes a log record of each line that is complete.
pub struct LineLogger {
    line_buf: Vec<u8>,
    pid: Option<u32>,
    stream: Stream,
}

/// What to do after a chunk has been read.
pub struct ReadStep {
    /// The records to log, in order.
    pub records: Vec<LogRecord>,
    /// Whether the stream has ended.
    pub done: bool,
}

impl LineLogger {
    /// The bytes read since the last newline.
    pub closed spec fn pending(&self) -> Seq<u8> {
        self.line_buf@
    }

    /// The process that is read from.
    pub closed spec fn pid(&self) -> Option<u32> {
        self.pid
    }

    /// The stream that is read from.
    pub closed spec fn stream(&self) -> Stream {
        self.stream
    }

    /// No complete line is pending.
    pub open spec fn wf(&self) -> bool {
        !self.pending().contains(NEWLINE)
    }

    /// A logger for `stream` of process `pid`, before anything has been read.
    pub fn new(pid: Option<u32>, stream: Stream) -> (logger: LineLogger)
        ensures
            logger.wf(),
            logger.pending() == Seq::<u8>::empty(),
            logger.pid() == pid,
            logger.stream() == stream,
    {
        LineLogger { line_buf: Vec::new(), pid, stream }
    }

    /// The level of this logger's lines.
    fn level(&self) -> (level: Level)
        ensures
            level == level_of(self.stream()),
    {
        match self.stream {
            Stream::Stdout => Level::Info,
            Stream::Stderr => Level::Error,
        }
    }

    /// Takes in the next chunk of the stream. An empty chunk is the end of the stream; a line
    /// that no newline has ended by then is never logged.
    pub fn read(&mut self, chunk: &[u8]) -> (step: ReadStep)
        requires
            old(self).wf(),
        ensures
            final(self).wf(),
            final(self).pid() == old(self).pid(),
            final(self).stream() == old(self).stream(),
            final(self).pending() == tail(old(self).pending() + chunk@),
            step.done == (chunk@.len() == 0),
            step.records@.len() == lines(old(self).pending() + chunk@).len(),
            forall|i: int|
                0 <= i < step.records@.len() ==> {
                    &&& (#[trigger] step.records@[i]).level == level_of(old(self).stream())
                    &&& step.records@[i].text@ == text::line_text(
                        old(self).pid(),
                        old(self).stream(),
                        text::lossy_text(lines(old(self).pending() + chunk@)[i]),
                    )
                },
            views(step.records@) == records_of(
                level_of(old(self).stream()),
                old(self).pid(),
                old(self).stream(),
                lines(old(self).pending() + chunk@),
            ),
            forall|i: int|
                0 <= i < lines(old(self).pending() + chunk@).len() ==> text::is_shown_faithfully(
                    #[trigger] lines(old(self).pending() + chunk@)[i],
                ),
    {
        let ghost before = self.line_buf@;
        let ghost stream = self.stream;
        let ghost pid = self.pid;
        let level = self.level();
        let mut records: Vec<LogRecord> = Vec::new();
        let mut i: usize = 0;
        proof {
            lemma_no_newline(before);
            assert(before + chunk@.take(0) == before);
            assert(views(records@) =~= records_of(level, pid, stream, lines(before)));
        }
        while i < chunk.len()
            invariant
                i <= chunk@.len(),
                self.pid == pid,
                self.stream == stream,
                self.line_buf@ == tail(before + chunk@.take(i as int)),
                views(records@) == records_of(
                    level,
                    pid,
                    stream,
                    lines(before + chunk@.take(i as int)),
                ),
                forall|j: int|
                    0 <= j < lines(before + chunk@.take(i as int)).len()
                        ==> text::is_shown_faithfully(
                        #[trigger] lines(before + chunk@.take(i as int))[j],
                    ),
            decreases chunk@.len() - i,
        {
            let b = chunk[i];
            let ghost seen = before + chunk@.take(i as int);
            let ghost grown = before + chunk@.take(i + 1);
            assert(grown.drop_last() == seen);
            assert(grown.last() == b);
            if b == NEWLINE {
                let line = text::from_utf8_lossy(self.line_buf.as_slice());
                let ghost old_records = records@;
                records.push(text::line_record(level, self.pid, self.stream, line.as_str()));
                self.line_buf.clear();
                assert(text::is_shown_faithfully(tail(seen)));
                assert(views(records@) == views(old_records).push(records@.last()@));
                assert(records_of(level, pid, stream, lines(grown)) == records_of(
                    level,
                    pid,
                    stream,
                    lines(seen),
                ).push(record_of(level, pid, stream, tail(seen))));
            } else {
                self.line_buf.push(b);
            }
            i += 1;
        }
        proof {
            assert(chunk@.take(i as int) == chunk@);
            law_split_is_lossless(before + chunk@);
        }
        proof {
            let all = lines(before + chunk@);
            assert(views(records@).len() == all.len());
            assert forall|i: int| 0 <= i < records@.len() implies {
                &&& (#[trigger] records@[i]).level == level
                &&& records@[i].text@ == text::line_text(pid, stream, text::lossy_text(all[i]))
            } by {
                assert(views(records@)[i] == record_of(level, pid, stream, all[i]));
            }
        }
        ReadStep { records, done: chunk.len() == 0 }
    }

    /// The record to log when reading fails with `cause`; nothing is read after that.
    pub fn read_failed(&self, cause: &str) -> (record: LogRecord)
        ensures
            record@ == (LogRecordView {
                level: Level::Error,
                text: text::read_failure_text(self.pid(), self.stream(), cause@),
            }),
            record.level == Level::Error,
            record.text@ == text::read_failure_text(self.pid(), self.stream(), cause@),
    {
        text::read_failure_record(self.pid, self.stream, cause)
    }
}

} // verus!
