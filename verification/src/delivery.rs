//! The answer does not depend on how the stream is cut into parts, and all that is
//! received is shown.

use vstd::prelude::*;
use vstd::seq_lib::lemma_flatten_concat;
use crate::emit::{law_pieces_make_up_the_output, stream_pieces, terminal_pieces};
use crate::json::JsonTree;
use crate::events::{drained, finished, lemma_split_event, split_event, Reading};
use crate::split::{lines, without_return};
use crate::stream::{
    line_kind, nothing_received, read_lines, stream_delta, with_content, with_message,
    with_reasoning, LineKind, Progress, Received,
};
use crate::json_text::parsed_json;
use crate::text::{
    lemma_run_len, lemma_run_len_is, lemma_tail_len, lemma_trim_of, run_len, trim_end_of,
    trim_start_of, trimmed, white, CharClass,
};

verus! {

/// Reads a stream that comes in parts: each part is taken in as it comes, and what
/// is left is read at the end.
pub open spec fn delivered(
    parts: Seq<Seq<char>>,
    pending: Seq<char>,
    got: Received,
) -> Progress
    decreases parts.len(),
{
    if parts.len() == 0 {
        finished(pending, got)
    } else {
        match drained(pending + parts[0], got) {
            Reading::More(rest, next) => delivered(parts.drop_first(), rest, next),
            Reading::Done(next) => Progress::Done(next),
            Reading::Fail(message, next) => Progress::Fail(message, next),
        }
    }
}

/// What the lines that count say, in order.
spec fn kinds(list: Seq<Seq<char>>) -> Seq<LineKind>
    decreases list.len(),
{
    if list.len() == 0 {
        seq![]
    } else {
        match line_kind(list[0]) {
            LineKind::Skip => kinds(list.drop_first()),
            k => seq![k] + kinds(list.drop_first()),
        }
    }
}

spec fn read_kinds(ks: Seq<LineKind>, got: Received) -> Progress
    decreases ks.len(),
{
    if ks.len() == 0 {
        Progress::Go(got)
    } else {
        match ks[0] {
            LineKind::Skip => read_kinds(ks.drop_first(), got),
            LineKind::Done => Progress::Done(got),
            LineKind::Data(data) => match parsed_json(data) {
                Ok(value) => read_kinds(ks.drop_first(), with_message(got, value)),
                Err(message) => Progress::Fail(message, got),
            },
        }
    }
}

proof fn lemma_read_lines(list: Seq<Seq<char>>, got: Received)
    ensures
        read_lines(list, got) == read_kinds(kinds(list), got),
    decreases list.len(),
{
    if list.len() > 0 {
        let rest = list.drop_first();
        match line_kind(list[0]) {
            LineKind::Skip => {
                lemma_read_lines(rest, got);
            },
            LineKind::Done => {},
            LineKind::Data(data) => {
                assert(kinds(list).drop_first() =~= kinds(rest));
                match parsed_json(data) {
                    Ok(value) => {
                        lemma_read_lines(rest, with_message(got, value));
                    },
                    Err(_) => {},
                }
            },
        }
    }
}

proof fn lemma_kinds_concat(a: Seq<Seq<char>>, b: Seq<Seq<char>>)
    ensures
        kinds(a + b) == kinds(a) + kinds(b),
    decreases a.len(),
{
    if a.len() == 0 {
        assert(a + b =~= b);
        assert(kinds(a) + kinds(b) =~= kinds(b));
    } else {
        lemma_kinds_concat(a.drop_first(), b);
        assert((a + b).drop_first() =~= a.drop_first() + b);
        match line_kind(a[0]) {
            LineKind::Skip => {},
            k => {
                assert(kinds(a + b) =~= kinds(a) + kinds(b));
            },
        }
    }
}

proof fn lemma_read_kinds_concat(a: Seq<LineKind>, b: Seq<LineKind>, got: Received)
    ensures
        read_kinds(a + b, got) == match read_kinds(a, got) {
            Progress::Go(next) => read_kinds(b, next),
            p => p,
        },
    decreases a.len(),
{
    if a.len() == 0 {
        assert(a + b =~= b);
    } else {
        assert((a + b).drop_first() =~= a.drop_first() + b);
        match a[0] {
            LineKind::Skip => {
                lemma_read_kinds_concat(a.drop_first(), b, got);
            },
            LineKind::Done => {},
            LineKind::Data(data) => match parsed_json(data) {
                Ok(value) => {
                    lemma_read_kinds_concat(a.drop_first(), b, with_message(got, value));
                },
                Err(_) => {},
            },
        }
    }
}

/// A line feed cuts a text in two.
proof fn lemma_lines_cut(a: Seq<char>, b: Seq<char>)
    ensures
        lines(a.push('\n') + b) == lines(a.push('\n')) + lines(b),
    decreases a.len(),
{
    let feed = CharClass::OneOf("\n");
    reveal_strlit("\n");
    assert("\n"@ =~= seq!['\n']);
    assert(seq!['\n'].contains('\n')) by {
        assert(seq!['\n'][0] == '\n');
    }
    let first = a.push('\n');
    let s = first + b;
    let n = run_len(first, feed, false);
    lemma_run_len(first, feed, false);
    assert(first[a.len() as int] == '\n');
    assert(n <= a.len());
    assert forall|i: int| 0 <= i < n implies feed.holds(#[trigger] s[i]) == false by {
        assert(s[i] == first[i]);
    }
    assert(s[n as int] == first[n as int]);
    lemma_run_len_is(s, feed, false, n);
    assert(s.take(n as int) =~= first.take(n as int));
    if n == a.len() {
        assert(s.skip(n as int + 1) =~= b);
        assert(first.skip(n as int + 1) =~= seq![]);
        assert(lines(first.skip(n as int + 1)) =~= seq![]);
        assert(lines(s) =~= lines(first) + lines(b));
    } else {
        let rest = a.skip(n as int + 1);
        assert(s.skip(n as int + 1) =~= rest.push('\n') + b);
        assert(first.skip(n as int + 1) =~= rest.push('\n'));
        lemma_lines_cut(rest, b);
        assert(lines(s) =~= lines(first) + lines(b));
    }
}

proof fn lemma_trimmed_push(e: Seq<char>, c: char)
    requires
        white(c),
    ensures
        trimmed(e.push(c)) == trimmed(e),
{
    let class = CharClass::White;
    let p = e.push(c);
    lemma_run_len(e, class, true);
    let n = run_len(e, class, true);
    assert forall|i: int| 0 <= i < n implies class.holds(#[trigger] p[i]) == true by {
        assert(p[i] == e[i]);
    }
    if n < e.len() {
        assert(p[n as int] == e[n as int]);
        lemma_run_len_is(p, class, true, n);
        let h = trim_start_of(e, class);
        assert(trim_start_of(p, class) =~= h.push(c));
        assert(h.push(c).drop_last() =~= h);
        lemma_tail_len(h, class);
        assert(trim_end_of(h.push(c), class) =~= trim_end_of(h, class));
    } else {
        assert forall|i: int| 0 <= i < p.len() implies class.holds(#[trigger] p[i]) == true by {
            if i < e.len() {
                assert(p[i] == e[i]);
            }
        }
        lemma_run_len_is(p, class, true, p.len());
        assert(trim_start_of(p, class) =~= seq![]);
        assert(trim_start_of(e, class) =~= seq![]);
    }
}

proof fn lemma_kind_push(e: Seq<char>, c: char)
    requires
        white(c),
    ensures
        line_kind(e.push(c)) == line_kind(e),
        line_kind(without_return(e)) == line_kind(e),
{
    lemma_trimmed_push(e, c);
    if e.len() > 0 && e.last() == '\r' {
        lemma_trimmed_push(e.drop_last(), '\r');
        assert(e.drop_last().push('\r') =~= e);
    }
}

/// White space at the end of a text says nothing.
proof fn lemma_kinds_push(e: Seq<char>, c: char)
    requires
        white(c),
    ensures
        kinds(lines(e.push(c))) == kinds(lines(e)),
    decreases e.len(),
{
    let feed = CharClass::OneOf("\n");
    reveal_strlit("\n");
    assert("\n"@ =~= seq!['\n']);
    assert(seq!['\n'].contains('\n')) by {
        assert(seq!['\n'][0] == '\n');
    }
    let p = e.push(c);
    let n = run_len(e, feed, false);
    lemma_run_len(e, feed, false);
    assert forall|i: int| 0 <= i < n implies feed.holds(#[trigger] p[i]) == false by {
        assert(p[i] == e[i]);
    }
    if n < e.len() {
        assert(p[n as int] == e[n as int]);
        lemma_run_len_is(p, feed, false, n);
        let rest = e.skip(n as int + 1);
        lemma_kinds_push(rest, c);
        assert(p.skip(n as int + 1) =~= rest.push(c));
        assert(p.take(n as int) =~= e.take(n as int));
        let line = seq![without_return(e.take(n as int))];
        lemma_kinds_concat(line, lines(rest));
        lemma_kinds_concat(line, lines(rest.push(c)));
    } else {
        lemma_kind_push(e, c);
        assert(p.take(e.len() as int) =~= e);
        assert(p.skip(e.len() as int + 1) =~= seq![]);
        let empty = Seq::<char>::empty();
        assert(trimmed(empty) =~= empty) by {
            lemma_trim_of(empty, CharClass::White);
        }
        assert(line_kind(empty) is Skip);
        if c == '\n' {
            lemma_run_len_is(p, feed, false, e.len());
            assert(lines(p.skip(e.len() as int + 1)) =~= seq![]);
            assert(lines(p) =~= seq![without_return(e)]);
        } else {
            lemma_run_len_is(p, feed, false, p.len());
            assert(lines(p) =~= seq![p]);
        }
        assert(lines(p).drop_first() =~= seq![]);
        if e.len() == 0 {
            assert(e =~= empty);
            assert(lines(e) =~= seq![]);
            assert(kinds(lines(p)) =~= kinds(lines(e)));
        } else {
            assert(lines(e) =~= seq![e]);
            assert(lines(e).drop_first() =~= seq![]);
            assert(kinds(lines(p)) =~= kinds(lines(e)));
        }
    }
}

proof fn lemma_blank_says_nothing(s: Seq<char>)
    requires
        trimmed(s).len() == 0,
    ensures
        kinds(lines(s)) == Seq::<LineKind>::empty(),
    decreases s.len(),
{
    if s.len() > 0 {
        let init = s.drop_last();
        lemma_trim_of(s, CharClass::White);
        let a = run_len(s, CharClass::White, true) as int;
        assert(white(s.last())) by {
            if a == s.len() {
                assert(CharClass::White.holds(s[s.len() - 1]));
            } else {
                assert(CharClass::White.holds(s[s.len() - 1]));
            }
        }
        assert(init.push(s.last()) =~= s);
        lemma_trimmed_push(init, s.last());
        lemma_kinds_push(init, s.last());
        lemma_blank_says_nothing(init);
    }
}

/// The lines of a text with an event at its start are those of the event and those
/// of the rest.
proof fn lemma_event_lines(event: Seq<char>, gap: Seq<char>, rest: Seq<char>)
    requires
        gap == seq!['\n', '\n'] || gap == seq!['\r', '\n', '\r', '\n'],
    ensures
        kinds(lines(event + gap + rest)) == kinds(lines(event)) + kinds(lines(rest)),
{
    let before = event + gap.drop_last();
    let whole = before.push('\n');
    assert(event + gap + rest =~= whole + rest);
    lemma_lines_cut(before, rest);
    lemma_kinds_concat(lines(whole), lines(rest));
    if gap.len() == 2 {
        assert(before =~= event.push('\n'));
        lemma_kinds_push(event, '\n');
        lemma_kinds_push(before, '\n');
    } else {
        let e1 = event.push('\r');
        let e2 = e1.push('\n');
        let e3 = e2.push('\r');
        assert(before =~= e3);
        lemma_kinds_push(event, '\r');
        lemma_kinds_push(e1, '\n');
        lemma_kinds_push(e2, '\r');
        lemma_kinds_push(e3, '\n');
    }
}

spec fn later(reading: Reading, more: Seq<char>) -> Progress {
    match reading {
        Reading::More(pending, got) => read_kinds(kinds(lines(pending + more)), got),
        Reading::Done(got) => Progress::Done(got),
        Reading::Fail(message, got) => Progress::Fail(message, got),
    }
}

proof fn lemma_drained(pending: Seq<char>, got: Received, more: Seq<char>)
    ensures
        later(drained(pending, got), more) == read_kinds(kinds(lines(pending + more)), got),
    decreases pending.len(),
{
    lemma_split_event(pending);
    match split_event(pending) {
        None => {},
        Some((event, rest)) => {
            let gap = if pending == event + seq!['\n', '\n'] + rest {
                seq!['\n', '\n']
            } else {
                seq!['\r', '\n', '\r', '\n']
            };
            lemma_event_lines(event, gap, rest + more);
            assert(event + gap + (rest + more) =~= pending + more);
            lemma_read_lines(lines(event), got);
            lemma_read_kinds_concat(kinds(lines(event)), kinds(lines(rest + more)), got);
            match read_lines(lines(event), got) {
                Progress::Go(next) => {
                    lemma_drained(rest, next, more);
                },
                _ => {},
            }
        },
    }
}

proof fn lemma_delivered(parts: Seq<Seq<char>>, pending: Seq<char>, got: Received)
    ensures
        delivered(parts, pending, got) == read_lines(lines(pending + parts.flatten()), got),
    decreases parts.len(),
{
    let whole = pending + parts.flatten();
    lemma_read_lines(lines(whole), got);
    if parts.len() == 0 {
        assert(whole =~= pending);
        if trimmed(pending).len() == 0 {
            lemma_blank_says_nothing(pending);
        }
    } else {
        let more = parts.drop_first().flatten();
        assert(whole =~= (pending + parts[0]) + more);
        lemma_drained(pending + parts[0], got, more);
        match drained(pending + parts[0], got) {
            Reading::More(rest, next) => {
                lemma_delivered(parts.drop_first(), rest, next);
                lemma_read_lines(lines(rest + more), next);
            },
            _ => {},
        }
    }
}

/// However the stream is cut into parts, what is received and shown, whether it
/// ends early and with which complaint are those of reading its lines in order.
pub proof fn law_parts_do_not_matter(parts: Seq<Seq<char>>)
    ensures
        delivered(parts, seq![], nothing_received()) == read_lines(
            lines(parts.flatten()),
            nothing_received(),
        ),
{
    lemma_delivered(parts, seq![], nothing_received());
    assert(Seq::<char>::empty() + parts.flatten() =~= parts.flatten());
}

/// What stands before the reasoning.
pub open spec fn heading() -> Seq<char> {
    "\r\n[reasoning]\r\n"@
}

/// The new reasoning of a message is shown, under a heading if it is the first, and then
/// the new text of the answer; nothing else is.
pub proof fn law_messages_are_shown(got: Received, value: JsonTree)
    ensures
        ({
            let (content, reasoning) = stream_delta(value);
            let first = reasoning.len() > 0 && got.reasoning.len() == 0;
            with_message(got, value).shown.flatten() == got.shown.flatten() + (if first {
                heading()
            } else {
                seq![]
            }) + reasoning + content
        }),
{
    let (content, reasoning) = stream_delta(value);
    let next = with_reasoning(got, reasoning);
    let none = Seq::<Seq<char>>::empty();
    law_pieces_make_up_the_output(heading());
    law_pieces_make_up_the_output(reasoning);
    law_pieces_make_up_the_output(content);
    let head = if got.reasoning.len() == 0 {
        terminal_pieces(heading())
    } else {
        none
    };
    assert(none.flatten() =~= seq![]);
    lemma_flatten_concat(got.shown, head);
    lemma_flatten_concat(got.shown + head, stream_pieces(reasoning));
    lemma_flatten_concat(next.shown, stream_pieces(content));
    assert(with_message(got, value) == with_content(next, content));
    let first = reasoning.len() > 0 && got.reasoning.len() == 0;
    let goal = got.shown.flatten() + (if first {
        heading()
    } else {
        seq![]
    }) + reasoning + content;
    if reasoning.len() > 0 {
        assert(next.shown == got.shown + head + stream_pieces(reasoning));
    }
    if content.len() > 0 {
        assert(with_message(got, value).shown.flatten() =~= goal);
    } else {
        assert(with_message(got, value).shown.flatten() =~= goal);
    }
}

/// As many characters were shown as were received, with one heading if there is
/// reasoning; without reasoning the answer was shown as it is.
pub open spec fn all_shown(got: Received) -> bool {
    &&& got.shown.flatten().len() == got.content.len() + got.reasoning.len() + (if got.reasoning.len()
        == 0 {
        0
    } else {
        heading().len()
    })
    &&& got.reasoning.len() == 0 ==> got.shown.flatten() == got.content
}

/// What has been received when reading has come so far.
pub open spec fn received(p: Progress) -> Received {
    match p {
        Progress::Go(got) => got,
        Progress::Done(got) => got,
        Progress::Fail(_, got) => got,
    }
}

/// However far a stream is read, and however it ends, all that was received has been
/// shown.
pub proof fn law_all_that_is_received_is_shown(list: Seq<Seq<char>>, got: Received)
    requires
        all_shown(got),
    ensures
        all_shown(received(read_lines(list, got))),
        all_shown(nothing_received()),
    decreases list.len(),
{
    assert(nothing_received().shown.flatten() =~= seq![]);
    if list.len() > 0 {
        match line_kind(list[0]) {
            LineKind::Skip => {
                law_all_that_is_received_is_shown(list.drop_first(), got);
            },
            LineKind::Done => {},
            LineKind::Data(data) => match parsed_json(data) {
                Ok(value) => {
                    law_messages_are_shown(got, value);
                    let next = with_message(got, value);
                    let (content, reasoning) = stream_delta(value);
                    if next.reasoning.len() == 0 {
                        assert(next.shown.flatten() =~= next.content);
                    }
                    law_all_that_is_received_is_shown(list.drop_first(), next);
                },
                Err(_) => {},
            },
        }
    }
}

} // verus!
