//! The answer of the chat service, read as a stream of events.

use vstd::prelude::*;
use crate::emit::{emit_stream_text, emit_terminal_data, stream_pieces, terminal_pieces};
use crate::json::{Json, JsonTree};
use crate::json_text::{parse_json, parsed_json};
use crate::search::{after_prefix, is_text, starts, starts_with, strip_prefix};
use crate::split::{lines, slice_views, split_lines};
use crate::text::{chars, string, trim, trimmed, views};

verus! {

/// What a line of the stream says.
pub enum StreamLine {
    /// Nothing: an empty line, a comment or a field other than `data`.
    Skip,
    /// The answer is complete.
    Done,
    /// A JSON text.
    Data(String),
}

/// What a line of the stream says.
pub enum LineKind {
    Skip,
    Done,
    Data(Seq<char>),
}

impl View for StreamLine {
    type V = LineKind;

    open spec fn view(&self) -> LineKind {
        match self {
            StreamLine::Skip => LineKind::Skip,
            StreamLine::Done => LineKind::Done,
            StreamLine::Data(s) => LineKind::Data(s@),
        }
    }
}

/// How a line is read: white space around it does not count.
pub open spec fn line_kind(line: Seq<char>) -> LineKind {
    let t = trimmed(line);
    if t.len() == 0 || starts(t, ":"@) {
        LineKind::Skip
    } else {
        match after_prefix(t, "data:"@) {
            None => LineKind::Skip,
            Some(rest) => if trimmed(rest) == "[DONE]"@ {
                LineKind::Done
            } else {
                LineKind::Data(trimmed(rest))
            },
        }
    }
}

/// Reads a line of the stream.
pub fn read_line(line: &[char]) -> (r: StreamLine)
    ensures
        r@ == line_kind(line@),
{
    let t = trim(line);
    if t.len() == 0 || starts_with(t, ":") {
        return StreamLine::Skip;
    }
    match strip_prefix(t, "data:") {
        None => StreamLine::Skip,
        Some(rest) => {
            let data = trim(rest);
            if is_text(data, "[DONE]") {
                StreamLine::Done
            } else {
                StreamLine::Data(string(data))
            }
        },
    }
}

/// The text that a value holds, or no text.
pub open spec fn text_or_empty(value: Option<JsonTree>) -> Seq<char> {
    match value {
        Some(JsonTree::Text(s)) => s,
        _ => seq![],
    }
}

/// The new text of the answer and of the reasoning in one message of the stream.
pub open spec fn stream_delta(value: JsonTree) -> (Seq<char>, Seq<char>) {
    match value.list_at("choices"@) {
        Some(choices) if choices.len() > 0 => match choices[0].field("delta"@) {
            Some(delta) => (
                text_or_empty(delta.field("content"@)),
                match delta.field("reasoning_content"@) {
                    Some(v) => text_or_empty(Some(v)),
                    None => text_or_empty(delta.field("reasoning"@)),
                },
            ),
            None => (seq![], seq![]),
        },
        _ => (seq![], seq![]),
    }
}

fn copy_text(value: Option<&Json>) -> (r: String)
    ensures
        r@ == text_or_empty(
            match value {
                Some(v) => Some(v@),
                None => None,
            },
        ),
{
    match value {
        Some(Json::Text(s)) => s.clone(),
        _ => String::new(),
    }
}

/// Reads the new text of the answer and of the reasoning.
pub fn extract_stream_delta(value: &Json) -> (r: (String, String))
    ensures
        (r.0@, r.1@) == stream_delta(value@),
{
    match value.get_list("choices") {
        Some(choices) => {
            if choices.len() == 0 {
                return (String::new(), String::new());
            }
            match choices[0].get("delta") {
                Some(delta) => {
                    let content = copy_text(delta.get("content"));
                    let reasoning = match delta.get("reasoning_content") {
                        Some(v) => copy_text(Some(v)),
                        None => copy_text(delta.get("reasoning")),
                    };
                    (content, reasoning)
                },
                None => (String::new(), String::new()),
            }
        },
        None => (String::new(), String::new()),
    }
}

/// What has come so far: the answer, the reasoning, and the pieces shown.
pub struct StreamState {
    pub content: String,
    pub reasoning: String,
    pub shown: Vec<String>,
}

/// What has come so far.
pub struct Received {
    pub content: Seq<char>,
    pub reasoning: Seq<char>,
    pub shown: Seq<Seq<char>>,
}

impl View for StreamState {
    type V = Received;

    open spec fn view(&self) -> Received {
        Received { content: self.content@, reasoning: self.reasoning@, shown: views(self.shown@) }
    }
}

/// Nothing has come yet.
pub open spec fn nothing_received() -> Received {
    Received { content: seq![], reasoning: seq![], shown: seq![] }
}

/// What has been received after new reasoning has come. Before the first of it a
/// heading is shown.
pub open spec fn with_reasoning(got: Received, delta: Seq<char>) -> Received {
    if delta.len() == 0 {
        got
    } else {
        let heading = if got.reasoning.len() == 0 {
            terminal_pieces("\r\n[reasoning]\r\n"@)
        } else {
            seq![]
        };
        Received {
            content: got.content,
            reasoning: got.reasoning + delta,
            shown: got.shown + heading + stream_pieces(delta),
        }
    }
}

/// What has been received after new text of the answer has come.
pub open spec fn with_content(got: Received, delta: Seq<char>) -> Received {
    if delta.len() == 0 {
        got
    } else {
        Received {
            content: got.content + delta,
            reasoning: got.reasoning,
            shown: got.shown + stream_pieces(delta),
        }
    }
}

/// What has been received after one message.
pub open spec fn with_message(got: Received, value: JsonTree) -> Received {
    let (content, reasoning) = stream_delta(value);
    with_content(with_reasoning(got, reasoning), content)
}

fn show(shown: &mut Vec<String>, pieces: Vec<String>)
    ensures
        views(final(shown)@) == views(old(shown)@) + views(pieces@),
{
    let mut pieces = pieces;
    let ghost given = pieces@;
    shown.append(&mut pieces);
    assert(views(shown@) =~= views(old(shown)@) + views(given));
}

/// Takes in one message.
pub fn take_message(state: &mut StreamState, value: &Json)
    ensures
        final(state)@ == with_message(old(state)@, value@),
{
    let (content, reasoning) = extract_stream_delta(value);
    if !reasoning.as_str().is_empty() {
        if state.reasoning.as_str().is_empty() {
            show(&mut state.shown, emit_terminal_data("\r\n[reasoning]\r\n"));
        } else {
            assert(state@.shown + Seq::<Seq<char>>::empty() =~= state@.shown);
        }
        state.reasoning.append(reasoning.as_str());
        show(&mut state.shown, emit_stream_text(reasoning.as_str()));
    }
    assert(state@ == with_reasoning(old(state)@, reasoning@));
    if !content.as_str().is_empty() {
        state.content.append(content.as_str());
        show(&mut state.shown, emit_stream_text(content.as_str()));
    }
}

/// How far reading has come.
pub enum Progress {
    /// More may come.
    Go(Received),
    /// The answer is complete.
    Done(Received),
    /// A message could not be read.
    Fail(Seq<char>, Received),
}

/// Reads lines in order, up to the end of the answer or a message that cannot be
/// read.
pub open spec fn read_lines(list: Seq<Seq<char>>, got: Received) -> Progress
    decreases list.len(),
{
    if list.len() == 0 {
        Progress::Go(got)
    } else {
        match line_kind(list[0]) {
            LineKind::Skip => read_lines(list.drop_first(), got),
            LineKind::Done => Progress::Done(got),
            LineKind::Data(data) => match parsed_json(data) {
                Ok(value) => read_lines(list.drop_first(), with_message(got, value)),
                Err(message) => Progress::Fail(message, got),
            },
        }
    }
}

/// How the result of reading and the state it left agree with the progress made.
pub open spec fn reports(r: Result<bool, String>, state: Received, p: Progress) -> bool {
    match p {
        Progress::Go(got) => r == Ok::<bool, String>(false) && state == got,
        Progress::Done(got) => r == Ok::<bool, String>(true) && state == got,
        Progress::Fail(message, got) => r is Err && r->Err_0@ == message && state == got,
    }
}

/// Reads one event. The result tells whether the answer is complete; a message
/// that cannot be read ends reading with the parser's complaint.
pub fn handle_stream_event(event: &str, state: &mut StreamState) -> (r: Result<bool, String>)
    ensures
        reports(r, final(state)@, read_lines(lines(event@), old(state)@)),
{
    let all = chars(event);
    let list = split_lines(all.as_slice());
    let ghost texts = slice_views(list@);
    let mut i: usize = 0;
    assert(texts.skip(0) =~= texts);
    while i < list.len()
        invariant
            i <= list.len(),
            texts == slice_views(list@),
            texts == lines(event@),
            read_lines(texts, old(state)@) == read_lines(texts.skip(i as int), state@),
        decreases list.len() - i,
    {
        let ghost rest = texts.skip(i as int);
        assert(rest[0] == list@[i as int]@);
        assert(rest.drop_first() =~= texts.skip(i + 1));
        match read_line(list[i]) {
            StreamLine::Skip => {},
            StreamLine::Done => {
                return Ok(true);
            },
            StreamLine::Data(data) => {
                match parse_json(data.as_str()) {
                    Ok(value) => {
                        take_message(state, &value);
                    },
                    Err(message) => {
                        return Err(message);
                    },
                }
            },
        }
        i = i + 1;
    }
    Ok(false)
}

/// What a message adds is the text under `content` of the delta of its first choice,
/// whatever else the delta holds, and as reasoning the text under `reasoning_content`
/// where that field is there, else the text under `reasoning`. A field of another kind
/// adds nothing.
pub proof fn law_deltas_are_the_texts_of_the_message(
    value: JsonTree,
    choices: Seq<JsonTree>,
    delta: JsonTree,
)
    requires
        value.field("choices"@) == Some(JsonTree::List(choices)),
        choices.len() > 0,
        choices[0].field("delta"@) == Some(delta),
    ensures
        match delta.field("content"@) {
            Some(JsonTree::Text(s)) => stream_delta(value).0 == s,
            _ => stream_delta(value).0.len() == 0,
        },
        match (delta.field("reasoning_content"@), delta.field("reasoning"@)) {
            (Some(JsonTree::Text(s)), _) => stream_delta(value).1 == s,
            (None, Some(JsonTree::Text(s))) => stream_delta(value).1 == s,
            _ => stream_delta(value).1.len() == 0,
        },
{
}

/// A message without a choice, or whose first choice has no delta, adds nothing.
pub proof fn law_messages_without_a_delta_say_nothing(value: JsonTree, got: Received)
    requires
        match value.field("choices"@) {
            Some(JsonTree::List(choices)) => choices.len() > 0 ==> choices[0].field("delta"@) is None,
            _ => true,
        },
    ensures
        stream_delta(value).0.len() == 0,
        stream_delta(value).1.len() == 0,
        with_message(got, value) == got,
{
}

/// A text of the answer is put behind the answer so far, and a text of the reasoning
/// behind the reasoning so far; neither is put with the other.
pub proof fn law_messages_are_added_to_what_came_before(
    value: JsonTree,
    choices: Seq<JsonTree>,
    delta: JsonTree,
    got: Received,
    content: Seq<char>,
    reasoning: Seq<char>,
)
    requires
        value.field("choices"@) == Some(JsonTree::List(choices)),
        choices.len() > 0,
        choices[0].field("delta"@) == Some(delta),
        delta.field("content"@) == Some(JsonTree::Text(content)),
        delta.field("reasoning_content"@) == Some(JsonTree::Text(reasoning)),
    ensures
        with_message(got, value).content == got.content + content,
        with_message(got, value).reasoning == got.reasoning + reasoning,
{
    assert(got.content + content =~= with_message(got, value).content);
    assert(got.reasoning + reasoning =~= with_message(got, value).reasoning);
}

/// A line says something only if it is a field `data`: the text behind the colon, without
/// the white space around it, or, where that is the mark of the end, that the answer is
/// complete.
pub proof fn law_only_data_is_read(line: Seq<char>, rest: Seq<char>)
    ensures
        trimmed(line) == "data:"@ + rest && trimmed(rest) != "[DONE]"@ ==> line_kind(line)
            == LineKind::Data(trimmed(rest)),
        trimmed(line) == "data:"@ + rest && trimmed(rest) == "[DONE]"@ ==> line_kind(line)
            == LineKind::Done,
        !starts(trimmed(line), "data:"@) ==> line_kind(line) == LineKind::Skip,
{
    reveal_strlit("data:");
    reveal_strlit(":");
    let t = trimmed(line);
    if t == "data:"@ + rest {
        assert(t.subrange(0, 5) =~= "data:"@);
        assert(t.skip(5) =~= rest);
        assert(t[0] == 'd');
        if starts(t, ":"@) {
            assert(t.subrange(0, 1)[0] == ':');
        }
    }
}

/// Lines are read one after the other: a text of two parts is read as the first and then,
/// unless the answer is complete or a message could not be read, the second.
pub proof fn law_lines_are_read_in_order(a: Seq<Seq<char>>, b: Seq<Seq<char>>, got: Received)
    ensures
        match read_lines(a, got) {
            Progress::Go(next) => read_lines(a + b, got) == read_lines(b, next),
            end => read_lines(a + b, got) == end,
        },
    decreases a.len(),
{
    if a.len() == 0 {
        assert(a + b =~= b);
    } else {
        assert((a + b).drop_first() =~= a.drop_first() + b);
        assert((a + b)[0] == a[0]);
        match line_kind(a[0]) {
            LineKind::Skip => {
                law_lines_are_read_in_order(a.drop_first(), b, got);
            },
            LineKind::Done => {},
            LineKind::Data(data) => {
                if let Ok(value) = parsed_json(data) {
                    law_lines_are_read_in_order(a.drop_first(), b, with_message(got, value));
                }
            },
        }
    }
}

/// One line of data adds its message; one that is no JSON ends reading with the complaint
/// of the parser and leaves what was received alone; the mark of the end completes the
/// answer; any other line changes nothing.
pub proof fn law_one_line_adds_one_message(line: Seq<char>, rest: Seq<char>, got: Received)
    ensures
        !starts(trimmed(line), "data:"@) ==> read_lines(seq![line], got) == Progress::Go(got),
        trimmed(line) == "data:"@ + rest ==> {
            if trimmed(rest) == "[DONE]"@ {
                read_lines(seq![line], got) == Progress::Done(got)
            } else {
                match parsed_json(trimmed(rest)) {
                    Ok(value) => read_lines(seq![line], got) == Progress::Go(
                        with_message(got, value),
                    ),
                    Err(message) => read_lines(seq![line], got) == Progress::Fail(message, got),
                }
            }
        },
{
    law_only_data_is_read(line, rest);
    let list = seq![line];
    assert(list[0] == line);
    assert(list.drop_first() =~= seq![]);
    assert(read_lines(list.drop_first(), got) == Progress::Go(got));
    if let Ok(value) = parsed_json(trimmed(rest)) {
        assert(read_lines(list.drop_first(), with_message(got, value)) == Progress::Go(
            with_message(got, value),
        ));
    }
}

/// What is reported says whether the answer is complete, and what was wrong where a message
/// could not be read; the state is what was received until then.
pub proof fn law_reports_say_how_far_it_went(
    r: Result<bool, String>,
    state: Received,
    got: Received,
    message: Seq<char>,
)
    ensures
        reports(r, state, Progress::Go(got)) ==> r is Ok && !r->Ok_0 && state == got,
        reports(r, state, Progress::Done(got)) ==> r is Ok && r->Ok_0 && state == got,
        reports(r, state, Progress::Fail(message, got)) ==> r is Err && r->Err_0@ == message
            && state == got,
{
}

} // verus!
