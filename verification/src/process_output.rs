//! The output of a child process: lines of bounded length, which are machine
//! events or go to a bounded log.
use crate::json;
use crate::json::{parse_json, JsonValue};
use crate::text;
use crate::text::{decode_lossy, trim};
use std::collections::VecDeque;
use vstd::prelude::*;
use vstd::string::*;

verus! {

/// A log holds at most this many lines.
pub const LOG_LINES: usize = 80;

/// A line of a log keeps at most this many bytes.
pub const LOG_LINE_BYTES: usize = 2048;

/// A line that may be a machine event keeps at most this many bytes.
pub const MACHINE_LINE_BYTES: usize = 16384;

/// The byte that ends a line.
pub const LINE_END: u8 = 10;

/// Cuts a stream of bytes into lines.
#[derive(Debug)]
pub struct LineAssembler {
    pub line: Vec<u8>,
    pub limit: usize,
}

/// What a byte does to the lines that are complete and to the one that is open:
/// bytes beyond the limit of a line are lost.
pub open spec fn taken(
    complete: Seq<Seq<u8>>,
    line: Seq<u8>,
    limit: usize,
    byte: u8,
) -> (Seq<Seq<u8>>, Seq<u8>) {
    if byte == LINE_END {
        (complete.push(line), Seq::empty())
    } else if line.len() < limit {
        (complete, line.push(byte))
    } else {
        (complete, line)
    }
}

/// The lines that bytes complete, and the line that they leave open.
pub open spec fn fed(line: Seq<u8>, limit: usize, bytes: Seq<u8>) -> (Seq<Seq<u8>>, Seq<u8>)
    decreases bytes.len(),
{
    if bytes.len() == 0 {
        (Seq::empty(), line)
    } else {
        let before = fed(line, limit, bytes.drop_last());
        taken(before.0, before.1, limit, bytes.last())
    }
}

/// The bytes of each line of a list.
pub open spec fn lines_view(lines: Seq<Vec<u8>>) -> Seq<Seq<u8>> {
    Seq::new(lines.len(), |i: int| lines[i]@)
}

impl LineAssembler {
    /// An assembler with no open line.
    pub fn new(parse_machine_events: bool) -> (assembler: LineAssembler)
        ensures
            assembler.line@.len() == 0,
            assembler.limit == if parse_machine_events {
                MACHINE_LINE_BYTES
            } else {
                LOG_LINE_BYTES
            },
    {
        LineAssembler {
            line: Vec::new(),
            limit: if parse_machine_events {
                MACHINE_LINE_BYTES
            } else {
                LOG_LINE_BYTES
            },
        }
    }

    /// Takes bytes of the stream and hands out the lines that they complete.
    pub fn feed(&mut self, bytes: &[u8]) -> (complete: Vec<Vec<u8>>)
        requires
            old(self).line@.len() <= old(self).limit,
        ensures
            (lines_view(complete@), final(self).line@) == fed(
                old(self).line@,
                old(self).limit,
                bytes@,
            ),
            final(self).limit == old(self).limit,
            final(self).line@.len() <= final(self).limit,
    {
        let mut complete: Vec<Vec<u8>> = Vec::new();
        let mut i: usize = 0;
        let ghost start = self.line@;
        let ghost limit = self.limit;
        assert(bytes@.take(0) =~= Seq::<u8>::empty());
        assert(lines_view(complete@) =~= Seq::<Seq<u8>>::empty());
        while i < bytes.len()
            invariant
                i <= bytes@.len(),
                self.limit == limit,
                self.line@.len() <= limit,
                (lines_view(complete@), self.line@) == fed(start, limit, bytes@.take(i as int)),
            decreases bytes@.len() - i,
        {
            let byte = bytes[i];
            let ghost before = lines_view(complete@);
            let ghost open = self.line@;
            assert(bytes@.take(i + 1).drop_last() =~= bytes@.take(i as int));
            if byte == LINE_END {
                let mut line: Vec<u8> = Vec::new();
                std::mem::swap(&mut line, &mut self.line);
                complete.push(line);
                assert(lines_view(complete@) =~= before.push(open));
                assert(self.line@ =~= Seq::<u8>::empty());
            } else if self.line.len() < self.limit {
                self.line.push(byte);
            }
            i = i + 1;
        }
        assert(bytes@.take(i as int) =~= bytes@);
        complete
    }

    /// The open line at the end of the stream, where it holds anything.
    pub fn finish(self) -> (line: Option<Vec<u8>>)
        ensures
            match line {
                Some(held) => held@ == self.line@ && self.line@.len() > 0,
                None => self.line@.len() == 0,
            },
    {
        if self.line.len() == 0 {
            None
        } else {
            Some(self.line)
        }
    }
}

/// What a line of output is.
#[derive(Debug)]
pub enum OutputLine {
    Blank,
    Event(JsonValue),
    Log(String),
}

/// What an [`OutputLine`] stands for.
pub enum OutputLineView {
    Blank,
    Event(json::JsonView),
    Log(Seq<char>),
}

impl View for OutputLine {
    type V = OutputLineView;

    open spec fn view(&self) -> OutputLineView {
        match self {
            OutputLine::Blank => OutputLineView::Blank,
            OutputLine::Event(event) => OutputLineView::Event(event@),
            OutputLine::Log(held) => OutputLineView::Log(held@),
        }
    }
}

/// What the trimmed text of a line is: an event where events are wanted and it
/// spells a document, else a line of the log.
pub open spec fn line_of(shown: Seq<char>, wants_events: bool) -> OutputLineView {
    if shown.len() == 0 {
        OutputLineView::Blank
    } else {
        match json::parsed_json(shown) {
            Some(event) => if wants_events {
                OutputLineView::Event(event)
            } else {
                OutputLineView::Log(shown)
            },
            None => OutputLineView::Log(shown),
        }
    }
}

/// What a line of output is. Events are looked for where the stream may carry
/// them and somebody receives them.
pub fn process_line(line: &[u8], has_receiver: bool, parse_machine_events: bool) -> (result:
    OutputLine)
    ensures
        result@ == line_of(
            text::trimmed(text::lossy_text(line@)),
            has_receiver && parse_machine_events,
        ),
{
    let decoded = decode_lossy(line);
    let shown = trim(decoded.as_str());
    if shown.is_empty() {
        return OutputLine::Blank;
    }
    if parse_machine_events && has_receiver {
        match parse_json(shown) {
            Some(event) => {
                return OutputLine::Event(event);
            },
            None => {},
        }
    }
    OutputLine::Log(shown.to_owned())
}

/// The entry of a log for a message from a stream.
pub open spec fn log_entry(stream: Seq<char>, message: Seq<char>) -> Seq<char> {
    stream + ": "@ + message
}

/// The last `count` of a list, or all of it.
pub open spec fn newest<T>(all: Seq<T>, count: int) -> Seq<T> {
    if all.len() > count {
        all.skip(all.len() - count)
    } else {
        all
    }
}

/// Adds a message from a stream to a log, which keeps its newest lines.
pub fn push_log(logs: &mut VecDeque<String>, stream: &str, message: &str)
    requires
        old(logs)@.len() <= LOG_LINES,
    ensures
        text::texts(final(logs)@) == newest(
            text::texts(old(logs)@).push(log_entry(stream@, message@)),
            LOG_LINES as int,
        ),
        final(logs)@.len() <= LOG_LINES,
{
    let ghost before = text::texts(logs@);
    let mut entry = stream.to_owned();
    entry.append(": ");
    entry.append(message);
    let ghost held = entry@;
    logs.push_back(entry);
    let ghost all = before.push(held);
    assert(text::texts(logs@) =~= all);
    if logs.len() > LOG_LINES {
        let _ = logs.pop_front();
        assert(text::texts(logs@) =~= all.skip(1));
    }
}

/// The newest lines of a log, oldest first.
pub fn recent_logs(logs: &VecDeque<String>, count: usize) -> (recent: Vec<String>)
    ensures
        text::texts(recent@) == newest(text::texts(logs@), count as int),
{
    let mut recent: Vec<String> = Vec::new();
    let start: usize = if logs.len() > count {
        logs.len() - count
    } else {
        0
    };
    let mut i: usize = start;
    while i < logs.len()
        invariant
            start <= i <= logs@.len(),
            recent@.len() == i - start,
            forall|j: int| 0 <= j < recent@.len() ==> (#[trigger] recent@[j])@ == logs@[start + j]@,
        decreases logs@.len() - i,
    {
        recent.push(logs[i].clone());
        i = i + 1;
    }
    assert(text::texts(recent@) =~= newest(text::texts(logs@), count as int));
    recent
}

/// How the stream is cut into reads does not matter: the lines of two reads are
/// those of one read with the bytes of both.
pub proof fn law_reads_may_be_cut_anywhere(
    line: Seq<u8>,
    limit: usize,
    first: Seq<u8>,
    second: Seq<u8>,
)
    ensures
        fed(line, limit, first + second) == (
            fed(line, limit, first).0 + fed(fed(line, limit, first).1, limit, second).0,
            fed(fed(line, limit, first).1, limit, second).1,
        ),
    decreases second.len(),
{
    let one = fed(line, limit, first);
    if second.len() == 0 {
        assert(first + second =~= first);
        assert(one.0 + fed(one.1, limit, second).0 =~= one.0);
    } else {
        let front = second.drop_last();
        law_reads_may_be_cut_anywhere(line, limit, first, front);
        assert((first + second).drop_last() =~= first + front);
        assert((first + second).last() == second.last());
        let two = fed(one.1, limit, front);
        assert((one.0 + two.0).push(two.1) =~= one.0 + two.0.push(two.1));
    }
}

/// No line is longer than the limit, whatever the child writes.
pub proof fn law_lines_are_bounded(line: Seq<u8>, limit: usize, bytes: Seq<u8>)
    requires
        line.len() <= limit,
    ensures
        fed(line, limit, bytes).1.len() <= limit,
        forall|i: int|
            0 <= i < fed(line, limit, bytes).0.len() ==> (#[trigger] fed(line, limit, bytes).0[i]).len()
                <= limit,
    decreases bytes.len(),
{
    if bytes.len() > 0 {
        law_lines_are_bounded(line, limit, bytes.drop_last());
    }
}

/// Lines within the limit come out as they were written, in their order: text
/// without a line end, followed by one, is one line.
pub proof fn law_short_line_is_kept(limit: usize, written: Seq<u8>)
    requires
        written.len() <= limit,
        !written.contains(LINE_END),
    ensures
        fed(Seq::empty(), limit, written.push(LINE_END)) == (
            seq![written],
            Seq::<u8>::empty(),
        ),
{
    lemma_open_line(limit, written);
    assert(written.push(LINE_END).drop_last() =~= written);
    assert(Seq::<Seq<u8>>::empty().push(written) =~= seq![written]);
}

proof fn lemma_open_line(limit: usize, written: Seq<u8>)
    requires
        written.len() <= limit,
        !written.contains(LINE_END),
    ensures
        fed(Seq::empty(), limit, written) == (Seq::<Seq<u8>>::empty(), written),
    decreases written.len(),
{
    if written.len() > 0 {
        let front = written.drop_last();
        assert(!front.contains(LINE_END)) by {
            if front.contains(LINE_END) {
                let i = choose|i: int| 0 <= i < front.len() && front[i] == LINE_END;
                assert(written[i] == LINE_END);
            }
        }
        assert(written.last() != LINE_END) by {
            assert(written[written.len() - 1] == written.last());
        }
        lemma_open_line(limit, front);
        assert(front.push(written.last()) =~= written);
    }
}

/// Of a line that is too long the beginning is kept, and the next line is not
/// touched by it.
pub proof fn law_long_line_is_cut(limit: usize, written: Seq<u8>)
    requires
        written.len() > limit,
        !written.contains(LINE_END),
    ensures
        fed(Seq::empty(), limit, written) == (Seq::<Seq<u8>>::empty(), written.take(limit as int)),
        fed(Seq::empty(), limit, written.push(LINE_END)) == (
            seq![written.take(limit as int)],
            Seq::<u8>::empty(),
        ),
    decreases written.len(),
{
    let front = written.drop_last();
    assert(!front.contains(LINE_END)) by {
        if front.contains(LINE_END) {
            let i = choose|i: int| 0 <= i < front.len() && front[i] == LINE_END;
            assert(written[i] == LINE_END);
        }
    }
    assert(written.last() != LINE_END) by {
        assert(written.contains(written.last()));
    }
    if front.len() > limit {
        law_long_line_is_cut(limit, front);
        assert(front.take(limit as int) =~= written.take(limit as int));
    } else {
        lemma_open_line(limit, front);
        assert(front =~= written.take(limit as int));
    }
    assert(written.push(LINE_END).drop_last() =~= written);
    assert(Seq::<Seq<u8>>::empty().push(written.take(limit as int)) =~= seq![
        written.take(limit as int),
    ]);
}

/// What a line of output is: nothing where it is blank; an event where events are
/// wanted and it is a document; and a line of the log, as it is, in every other case.
pub proof fn law_line_is_an_event_or_a_log_entry(shown: Seq<char>, wants_events: bool)
    ensures
        shown.len() == 0 ==> line_of(shown, wants_events) == OutputLineView::Blank,
        shown.len() > 0 && !wants_events ==> line_of(shown, wants_events) == OutputLineView::Log(
            shown,
        ),
        shown.len() > 0 && json::parsed_json(shown) is None ==> line_of(shown, wants_events)
            == OutputLineView::Log(shown),
        shown.len() > 0 && wants_events ==> (json::parsed_json(shown) matches Some(event)
            ==> line_of(shown, wants_events) == OutputLineView::Event(event)),
{
}

/// The newest entries are the last ones, in their order; all of them where there are
/// no more than that.
pub proof fn law_newest_entries_are_the_last<T>(all: Seq<T>, count: int)
    requires
        count >= 0,
    ensures
        all.len() <= count ==> newest(all, count) == all,
        all.len() > count ==> newest(all, count).len() == count && forall|i: int|
            0 <= i < count ==> #[trigger] newest(all, count)[i] == all[all.len() - count + i],
{
}

/// An entry of the log says which stream it came from and what was said.
pub proof fn law_log_entry_names_its_stream(stream: Seq<char>, message: Seq<char>)
    ensures
        log_entry(stream, message) == stream + ": "@ + message,
        crate::text::begins_with(log_entry(stream, message), stream),
        crate::text::finishes_with(log_entry(stream, message), message),
{
    crate::text::law_prefix_and_suffix(message, message, stream + ": "@);
    crate::text::law_prefix_and_suffix(stream, stream, ": "@ + message);
    assert(stream + ": "@ + message =~= stream + (": "@ + message));
}

} // verus!
