//! Cutting the stream of the chat service into events, however it is delivered.

use vstd::prelude::*;
use vstd::slice::slice_subrange;
use crate::search::{
    contains_text, find, find_text, lemma_find, lemma_found_behind, lemma_still_held, matches_at,
    starts, starts_with,
};
use crate::split::lines;
use crate::stream::{
    handle_stream_event, nothing_received, read_lines, reports, Progress, Received, StreamState,
};
use crate::text::{
    chars, is_blank, lemma_trim_of, run_len, string, trimmed, views, white, CharClass,
};

verus! {

/// Where the first event ends: at the first empty line, or, if there is none, at
/// the first empty line whose line ends have carriage returns.
pub open spec fn event_end(pending: Seq<char>) -> Option<int> {
    match find(pending, "\n\n"@) {
        Some(k) => Some(k),
        None => find(pending, "\r\n\r\n"@),
    }
}

/// The first event and what follows it.
pub open spec fn split_event(pending: Seq<char>) -> Option<(Seq<char>, Seq<char>)> {
    match event_end(pending) {
        Some(k) => {
            let n = if starts(pending.skip(k), "\r\n\r\n"@) {
                4int
            } else {
                2int
            };
            Some((pending.take(k), pending.skip(k + n)))
        },
        None => None,
    }
}

pub proof fn lemma_split_event(pending: Seq<char>)
    ensures
        match split_event(pending) {
            Some((event, rest)) => {
                &&& rest.len() < pending.len()
                &&& {
                    ||| pending == event + seq!['\n', '\n'] + rest
                    ||| pending == event + seq!['\r', '\n', '\r', '\n'] + rest
                }
            },
            None => true,
        },
{
    reveal_strlit("\n\n");
    reveal_strlit("\r\n\r\n");
    lemma_find(pending, "\n\n"@);
    lemma_find(pending, "\r\n\r\n"@);
    assert("\n\n"@ =~= seq!['\n', '\n']);
    assert("\r\n\r\n"@ =~= seq!['\r', '\n', '\r', '\n']);
    match event_end(pending) {
        Some(k) => {
            let (event, rest) = split_event(pending)->0;
            if find(pending, "\n\n"@) is Some {
                let mid = pending.subrange(k, k + 2);
                assert(mid == seq!['\n', '\n']);
                assert(mid[0] == pending[k]);
                if starts(pending.skip(k), "\r\n\r\n"@) {
                    let four = pending.skip(k).subrange(0, 4);
                    assert(four[0] == pending[k]);
                    assert(false);
                }
                assert(pending =~= event + mid + rest);
            } else {
                let mid = pending.subrange(k, k + 4);
                assert(mid =~= pending.skip(k).subrange(0, 4));
                assert(pending =~= event + mid + rest);
            }
        },
        None => {},
    }
}

/// How far reading has come, with the text that waits for the rest of its event.
pub enum Reading {
    More(Seq<char>, Received),
    Done(Received),
    Fail(Seq<char>, Received),
}

/// Reads every complete event.
pub open spec fn drained(pending: Seq<char>, got: Received) -> Reading
    decreases pending.len(),
{
    match split_event(pending) {
        None => Reading::More(pending, got),
        Some((event, rest)) => {
            proof {
                lemma_split_event(pending);
            }
            match read_lines(lines(event), got) {
                Progress::Go(next) => drained(rest, next),
                Progress::Done(next) => Reading::Done(next),
                Progress::Fail(message, next) => Reading::Fail(message, next),
            }
        },
    }
}

/// A stream that is being read.
pub struct EventStream {
    pub state: StreamState,
    pub pending: String,
}

/// How the result of reading and the stream that it left agree with the reading.
pub open spec fn stream_reports(
    r: Result<bool, String>,
    after: EventStream,
    reading: Reading,
) -> bool {
    match reading {
        Reading::More(pending, got) => {
            &&& r == Ok::<bool, String>(false)
            &&& after.pending@ == pending
            &&& after.state@ == got
        },
        Reading::Done(got) => r == Ok::<bool, String>(true) && after.state@ == got,
        Reading::Fail(message, got) => r is Err && r->Err_0@ == message && after.state@ == got,
    }
}

/// The answer: the text of the answer, or the reasoning where no such text came.
pub open spec fn answer(got: Received) -> Seq<char> {
    if trimmed(got.content).len() == 0 {
        got.reasoning
    } else {
        got.content
    }
}

/// Reads what is left when the stream ends.
pub open spec fn finished(pending: Seq<char>, got: Received) -> Progress {
    if trimmed(pending).len() == 0 {
        Progress::Go(got)
    } else {
        read_lines(lines(pending), got)
    }
}

impl EventStream {
    pub fn new() -> (r: EventStream)
        ensures
            r.pending@ == Seq::<char>::empty(),
            r.state@ == nothing_received(),
    {
        let r = EventStream {
            state: StreamState {
                content: String::new(),
                reasoning: String::new(),
                shown: Vec::new(),
            },
            pending: String::new(),
        };
        assert(views(r.state.shown@) =~= seq![]);
        r
    }

    /// Takes in the next part of the stream and reads every event that is now
    /// complete. The result tells whether the answer is complete.
    pub fn feed(&mut self, part: &str) -> (r: Result<bool, String>)
        ensures
            stream_reports(
                r,
                *final(self),
                drained(old(self).pending@ + part@, old(self).state@),
            ),
    {
        self.pending.append(part);
        let all = chars(self.pending.as_str());
        let mut rest = all.as_slice();
        let ghost goal = drained(rest@, self.state@);
        loop
            invariant
                goal == drained(old(self).pending@ + part@, old(self).state@),
                goal == drained(rest@, self.state@),
            decreases rest@.len(),
        {
            proof {
                lemma_split_event(rest@);
                reveal_strlit("\n\n");
                reveal_strlit("\r\n\r\n");
                lemma_find(rest@, "\r\n\r\n"@);
                lemma_find(rest@, "\n\n"@);
            }
            let end = match find_text(rest, "\n\n") {
                Some(k) => Some(k),
                None => find_text(rest, "\r\n\r\n"),
            };
            match end {
                None => {
                    self.pending = string(rest);
                    return Ok(false);
                },
                Some(k) => {
                    let len: usize = rest.len();
                    let tail = slice_subrange(rest, k, len);
                    assert(tail@ =~= rest@.skip(k as int));
                    let n: usize = if starts_with(tail, "\r\n\r\n") {
                        4
                    } else {
                        2
                    };
                    let event = string(slice_subrange(rest, 0, k));
                    assert(event@ =~= rest@.take(k as int));
                    let next = slice_subrange(rest, k + n, len);
                    assert(next@ =~= rest@.skip(k + n));
                    match handle_stream_event(event.as_str(), &mut self.state) {
                        Ok(false) => {
                            rest = next;
                        },
                        Ok(true) => {
                            return Ok(true);
                        },
                        Err(message) => {
                            return Err(message);
                        },
                    }
                },
            }
        }
    }

    /// Reads what is left when the stream ends.
    pub fn finish(&mut self) -> (r: Result<bool, String>)
        ensures
            reports(r, final(self).state@, finished(old(self).pending@, old(self).state@)),
    {
        if is_blank(self.pending.as_str()) {
            Ok(false)
        } else {
            handle_stream_event(self.pending.as_str(), &mut self.state)
        }
    }

    /// The answer that the stream gave.
    pub fn answer(&self) -> (r: String)
        ensures
            r@ == answer(self.state@),
    {
        if is_blank(self.state.content.as_str()) {
            self.state.reasoning.clone()
        } else {
            self.state.content.clone()
        }
    }
}

/// The answer is the text of the answer where that holds anything but white space, and
/// else the reasoning.
pub proof fn law_reasoning_stands_in_for_a_blank_answer(got: Received)
    ensures
        (exists|i: int| 0 <= i < got.content.len() && !white(#[trigger] got.content[i]))
            ==> answer(got) == got.content,
        (forall|i: int| 0 <= i < got.content.len() ==> white(#[trigger] got.content[i])) ==> answer(
            got,
        ) == got.reasoning,
{
    lemma_trim_of(got.content, CharClass::White);
    let t = trimmed(got.content);
    if t.len() > 0 {
        let a = run_len(got.content, CharClass::White, true) as int;
        assert(t[0] == got.content[a]);
    }
}

/// What is left when the stream ends is read like any other line, and blank rests are
/// nothing.
pub proof fn law_the_rest_is_read(pending: Seq<char>, got: Received)
    ensures
        finished(pending, got) == read_lines(lines(pending), got) || finished(pending, got)
            == Progress::Go(got),
        (exists|i: int| 0 <= i < pending.len() && !white(#[trigger] pending[i])) ==> finished(
            pending,
            got,
        ) == read_lines(lines(pending), got),
        (forall|i: int| 0 <= i < pending.len() ==> white(#[trigger] pending[i])) ==> finished(
            pending,
            got,
        ) == Progress::Go(got),
{
    lemma_trim_of(pending, CharClass::White);
    let t = trimmed(pending);
    if t.len() > 0 {
        let a = run_len(pending, CharClass::White, true) as int;
        assert(t[0] == pending[a]);
    }
}

/// What is reported of a part says whether the answer is complete, and keeps what is not
/// yet read for the next part.
pub proof fn law_parts_are_reported(
    r: Result<bool, String>,
    after: EventStream,
    pending: Seq<char>,
    got: Received,
    message: Seq<char>,
)
    ensures
        stream_reports(r, after, Reading::More(pending, got)) ==> r is Ok && !r->Ok_0
            && after.pending@ == pending && after.state@ == got,
        stream_reports(r, after, Reading::Done(got)) ==> r is Ok && r->Ok_0 && after.state@ == got,
        stream_reports(r, after, Reading::Fail(message, got)) ==> r is Err && r->Err_0@ == message
            && after.state@ == got,
{
}

/// An event ends at the first blank line, whichever way its lines end; what stands before
/// it is read, and what stands behind it is kept.
pub proof fn law_events_end_at_blank_lines(event: Seq<char>, rest: Seq<char>, got: Received)
    requires
        !contains_text(event + "\n"@, "\n\n"@),
    ensures
        drained(event + "\n\n"@ + rest, got) == (match read_lines(lines(event), got) {
            Progress::Go(next) => drained(rest, next),
            Progress::Done(next) => Reading::Done(next),
            Progress::Fail(message, next) => Reading::Fail(message, next),
        }),
        !contains_text(event, "\r\n\r\n"@) ==> drained(event, got) == Reading::More(event, got),
{
    lemma_event_ends(event, rest);
    lemma_no_event_ends(event);
}

/// The first blank line parts an event from what stands behind it.
proof fn lemma_event_ends(event: Seq<char>, rest: Seq<char>)
    requires
        !contains_text(event + "\n"@, "\n\n"@),
    ensures
        split_event(event + "\n\n"@ + rest) == Some((event, rest)),
{
    reveal_strlit("\n");
    reveal_strlit("\n\n");
    reveal_strlit("\r\n\r\n");
    let end = "\n\n"@;
    let all = event + end + rest;
    let n = event.len() as int;
    assert(end.drop_last() =~= "\n"@);
    lemma_found_behind(event, end, rest);
    let tail = all.skip(n);
    assert(tail[0] == end[0]);
    if starts(tail, "\r\n\r\n"@) {
        assert(tail.subrange(0, 4)[0] == "\r\n\r\n"@[0]);
    }
    assert(all.take(n) =~= event);
    assert(all.skip(n + 2) =~= rest);
}

/// Without a blank line no event has ended.
proof fn lemma_no_event_ends(event: Seq<char>)
    requires
        !contains_text(event + "\n"@, "\n\n"@),
    ensures
        !contains_text(event, "\r\n\r\n"@) ==> split_event(event) is None,
{
    lemma_find(event, "\n\n"@);
    lemma_find(event, "\r\n\r\n"@);
    if let Some(i) = find(event, "\n\n"@) {
        assert(matches_at(event, "\n\n"@, i));
        lemma_still_held(event, "\n"@, "\n\n"@);
    }
    if let Some(i) = find(event, "\r\n\r\n"@) {
        assert(matches_at(event, "\r\n\r\n"@, i));
    }
}

/// Where the lines end with a carriage return too, an event ends at the first blank line of
/// that kind, and the whole of that line end is passed over.
pub proof fn law_events_end_at_blank_lines_with_returns(
    event: Seq<char>,
    rest: Seq<char>,
    got: Received,
)
    requires
        !contains_text(event + "\r\n\r"@, "\r\n\r\n"@),
        !contains_text(event + "\r\n\r\n"@ + rest, "\n\n"@),
    ensures
        drained(event + "\r\n\r\n"@ + rest, got) == (match read_lines(lines(event), got) {
            Progress::Go(next) => drained(rest, next),
            Progress::Done(next) => Reading::Done(next),
            Progress::Fail(message, next) => Reading::Fail(message, next),
        }),
{
    lemma_event_ends_with_returns(event, rest);
}

/// The first blank line with returns parts an event from what stands behind it.
proof fn lemma_event_ends_with_returns(event: Seq<char>, rest: Seq<char>)
    requires
        !contains_text(event + "\r\n\r"@, "\r\n\r\n"@),
        !contains_text(event + "\r\n\r\n"@ + rest, "\n\n"@),
    ensures
        split_event(event + "\r\n\r\n"@ + rest) == Some((event, rest)),
{
    reveal_strlit("\r\n\r");
    reveal_strlit("\r\n\r\n");
    let end = "\r\n\r\n"@;
    let all = event + end + rest;
    let n = event.len() as int;
    lemma_find(all, "\n\n"@);
    if let Some(i) = find(all, "\n\n"@) {
        assert(matches_at(all, "\n\n"@, i));
    }
    assert(end.drop_last() =~= "\r\n\r"@);
    lemma_found_behind(event, end, rest);
    let tail = all.skip(n);
    assert(tail.subrange(0, 4) =~= end);
    assert(all.take(n) =~= event);
    assert(all.skip(n + 4) =~= rest);
}

} // verus!
