//! How output reaches the window: in pieces, each handed over by a script.

use vstd::prelude::*;
use vstd::slice::slice_subrange;
use crate::json_text::{json_literal, quote_json};
use crate::search::matches_at;
use crate::text::{chars, lemma_views_push, string, views};

verus! {

/// A text cut into pieces of `n` characters; the last piece may be shorter.
pub open spec fn chunked(s: Seq<char>, n: nat) -> Seq<Seq<char>>
    decreases s.len(),
{
    if s.len() == 0 || n == 0 {
        seq![]
    } else if s.len() <= n {
        seq![s]
    } else {
        seq![s.take(n as int)] + chunked(s.skip(n as int), n)
    }
}

/// The pieces in which terminal output is shown: output of up to 120 characters
/// at once, longer output 64 characters at a time.
pub open spec fn terminal_pieces(s: Seq<char>) -> Seq<Seq<char>> {
    if 0 < s.len() <= 120 {
        seq![s]
    } else {
        chunked(s, 64)
    }
}

/// The pieces in which streamed text is shown: 32 characters at a time.
pub open spec fn stream_pieces(s: Seq<char>) -> Seq<Seq<char>> {
    chunked(s, 32)
}

/// Cuts a text into pieces of `n` characters.
fn cut(s: &[char], n: usize) -> (r: Vec<String>)
    requires
        n > 0,
    ensures
        views(r@) == chunked(s@, n as nat),
{
    broadcast use lemma_views_push;

    let mut out: Vec<String> = Vec::new();
    let mut rest = s;
    assert(views(out@) + chunked(rest@, n as nat) =~= chunked(s@, n as nat));
    while rest.len() > n
        invariant
            n > 0,
            views(out@) + chunked(rest@, n as nat) == chunked(s@, n as nat),
        decreases rest@.len(),
    {
        let piece = string(slice_subrange(rest, 0, n));
        let next = slice_subrange(rest, n, rest.len());
        assert(piece@ =~= rest@.take(n as int));
        assert(next@ =~= rest@.skip(n as int));
        assert(views(out@) + chunked(rest@, n as nat) =~= views(out@).push(piece@) + chunked(
            next@,
            n as nat,
        ));
        out.push(piece);
        rest = next;
    }
    if rest.len() > 0 {
        assert(views(out@) + chunked(rest@, n as nat) =~= views(out@).push(rest@));
        out.push(string(rest));
    } else {
        assert(views(out@) + chunked(rest@, n as nat) =~= views(out@));
    }
    out
}

/// The pieces in which terminal output is shown.
pub fn emit_terminal_data(data: &str) -> (r: Vec<String>)
    ensures
        views(r@) == terminal_pieces(data@),
{
    broadcast use lemma_views_push;

    let all = chars(data);
    if 0 < all.len() && all.len() <= 120 {
        let mut out: Vec<String> = Vec::new();
        out.push(data.to_string());
        assert(views(out@) =~= seq![data@]);
        out
    } else {
        cut(all.as_slice(), 64)
    }
}

/// The pieces in which streamed text is shown.
pub fn emit_stream_text(data: &str) -> (r: Vec<String>)
    ensures
        views(r@) == stream_pieces(data@),
{
    let all = chars(data);
    cut(all.as_slice(), 32)
}

/// The script that hands a piece of output to the window.
pub open spec fn push_call(session_id: Seq<char>, text: Seq<char>) -> Seq<char> {
    "window.__deepseekDesktopStreamPush && window.__deepseekDesktopStreamPush("@ + json_literal(
        session_id,
    ) + ", "@ + json_literal(text) + ");"@
}

/// Writes the script that hands a piece of output to the window.
pub fn push_script(session_id: &str, text: &str) -> (r: String)
    ensures
        r@ == push_call(session_id@, text@),
{
    let mut out =
        "window.__deepseekDesktopStreamPush && window.__deepseekDesktopStreamPush(".to_string();
    out.append(quote_json(session_id).as_str());
    out.append(", ");
    out.append(quote_json(text).as_str());
    out.append(");");
    out
}

proof fn lemma_chunked(s: Seq<char>, n: nat)
    requires
        n > 0,
    ensures
        chunked(s, n).flatten() == s,
        forall|i: int|
            0 <= i < chunked(s, n).len() ==> 0 < (#[trigger] chunked(s, n)[i]).len() <= n,
    decreases s.len(),
{
    if s.len() == 0 {
        assert(chunked(s, n).flatten() =~= s);
    } else if s.len() <= n {
        chunked(s, n).lemma_flatten_one_element();
    } else {
        let head = s.take(n as int);
        let rest = s.skip(n as int);
        lemma_chunked(rest, n);
        assert(chunked(s, n).drop_first() =~= chunked(rest, n));
        assert(head + rest =~= s);
        assert forall|i: int| 0 <= i < chunked(s, n).len() implies 0 < (#[trigger] chunked(
            s,
            n,
        )[i]).len() <= n by {
            if i > 0 {
                assert(chunked(s, n)[i] == chunked(rest, n)[i - 1]);
            }
        }
    }
}

/// Nothing of the output is lost, repeated or moved: the pieces one after the
/// other are the output, and no piece is empty.
pub proof fn law_pieces_make_up_the_output(s: Seq<char>)
    ensures
        terminal_pieces(s).flatten() == s,
        stream_pieces(s).flatten() == s,
        forall|i: int|
            0 <= i < terminal_pieces(s).len() ==> 0 < (#[trigger] terminal_pieces(s)[i]).len()
                <= 120,
        forall|i: int|
            0 <= i < stream_pieces(s).len() ==> 0 < (#[trigger] stream_pieces(s)[i]).len() <= 32,
{
    lemma_chunked(s, 32);
    if 0 < s.len() <= 120 {
        terminal_pieces(s).lemma_flatten_one_element();
    } else {
        lemma_chunked(s, 64);
    }
}

/// Output up to the length of a piece is handed over at once, and in longer output all
/// pieces but the last are full.
pub proof fn law_pieces_are_full(s: Seq<char>)
    ensures
        0 < s.len() <= 120 ==> terminal_pieces(s) == seq![s],
        s.len() > 120 ==> forall|i: int|
            0 <= i < terminal_pieces(s).len() - 1 ==> (#[trigger] terminal_pieces(s)[i]).len() == 64,
        forall|i: int|
            0 <= i < stream_pieces(s).len() - 1 ==> (#[trigger] stream_pieces(s)[i]).len() == 32,
        s.len() == 0 ==> terminal_pieces(s).len() == 0 && stream_pieces(s).len() == 0,
{
    lemma_full(s, 32);
    lemma_full(s, 64);
}

proof fn lemma_full(s: Seq<char>, n: nat)
    requires
        n > 0,
    ensures
        forall|i: int|
            0 <= i < chunked(s, n).len() - 1 ==> (#[trigger] chunked(s, n)[i]).len() == n,
    decreases s.len(),
{
    if s.len() > n {
        let rest = s.skip(n as int);
        lemma_full(rest, n);
        assert forall|i: int| 0 <= i < chunked(s, n).len() - 1 implies (#[trigger] chunked(
            s,
            n,
        )[i]).len() == n by {
            if i > 0 {
                assert(chunked(s, n)[i] == chunked(rest, n)[i - 1]);
            }
        }
    }
}

/// A script hands over the session and the piece, each as a literal, in this order, and
/// nothing else of them.
pub proof fn law_scripts_name_session_and_piece(session: Seq<char>, text: Seq<char>)
    ensures
        ({
            let call = push_call(session, text);
            let a = json_literal(session);
            let b = json_literal(text);
            exists|i: int| #[trigger] matches_at(call, a + ", "@ + b + ");"@, i) && i + a.len() + b.len()
                + 4 == call.len()
        }),
{
    reveal_strlit(", ");
    reveal_strlit(");");
    let call = push_call(session, text);
    let tail = json_literal(session) + ", "@ + json_literal(text) + ");"@;
    let i = call.len() - tail.len();
    assert(call.subrange(i, i + tail.len()) =~= tail);
    assert(matches_at(call, tail, i));
}

} // verus!
