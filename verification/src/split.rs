//! Words, lines and lists of text.

use vstd::prelude::*;
use vstd::slice::slice_subrange;
use crate::text::{count_run, lemma_run_len, lemma_run_len_is, run_len, views, CharClass};

verus! {

/// The views of a list of slices of characters.
pub open spec fn slice_views(list: Seq<&[char]>) -> Seq<Seq<char>> {
    Seq::new(list.len(), |i: int| list[i]@)
}

pub broadcast proof fn lemma_slice_views_push(list: Seq<&[char]>, s: &[char])
    ensures
        #[trigger] slice_views(list.push(s)) == slice_views(list).push(s@),
{
    assert(slice_views(list.push(s)) =~= slice_views(list).push(s@));
}

/// The longest pieces of a text that hold no character of the class, in order.
pub open spec fn pieces(s: Seq<char>, class: CharClass) -> Seq<Seq<char>>
    decreases s.len(),
{
    if s.len() == 0 {
        seq![]
    } else if class.holds(s[0]) {
        pieces(s.drop_first(), class)
    } else {
        let n = run_len(s, class, false) as int;
        proof {
            lemma_run_len(s, class, false);
        }
        seq![s.take(n)] + pieces(s.skip(n), class)
    }
}

/// The words of a text: the pieces between white space.
pub open spec fn words(s: Seq<char>) -> Seq<Seq<char>> {
    pieces(s, CharClass::White)
}

/// Splits a text at the characters of a class and leaves empty pieces out.
pub fn split_class<'a>(s: &'a [char], class: CharClass) -> (r: Vec<&'a [char]>)
    ensures
        slice_views(r@) == pieces(s@, class),
{
    broadcast use lemma_slice_views_push;

    let mut out: Vec<&'a [char]> = Vec::new();
    let mut rest = s;
    assert(slice_views(out@) + pieces(rest@, class) =~= pieces(s@, class));
    while rest.len() > 0
        invariant
            slice_views(out@) + pieces(rest@, class) == pieces(s@, class),
        decreases rest@.len(),
    {
        if class.has(rest[0]) {
            let next = slice_subrange(rest, 1, rest.len());
            assert(next@ =~= rest@.drop_first());
            rest = next;
        } else {
            let n: usize = count_run(rest, class, false);
            let piece = slice_subrange(rest, 0, n);
            let next = slice_subrange(rest, n, rest.len());
            assert(piece@ =~= rest@.take(n as int));
            assert(next@ =~= rest@.skip(n as int));
            proof {
                assert(slice_views(out@) + pieces(rest@, class) =~= slice_views(out@).push(piece@)
                    + pieces(next@, class));
            }
            out.push(piece);
            rest = next;
        }
    }
    assert(slice_views(out@) + pieces(rest@, class) =~= slice_views(out@));
    out
}

/// Splits a text at white space, as `str::split_whitespace` does.
pub fn split_words<'a>(s: &'a [char]) -> (r: Vec<&'a [char]>)
    ensures
        slice_views(r@) == words(s@),
{
    split_class(s, CharClass::White)
}

/// A line without the carriage return that its line feed followed.
pub open spec fn without_return(s: Seq<char>) -> Seq<char> {
    if s.len() > 0 && s.last() == '\r' {
        s.drop_last()
    } else {
        s
    }
}

/// The lines of a text. A line feed, or a carriage return and a line feed, ends a
/// line and belongs to none; the last line needs no end.
pub open spec fn lines(s: Seq<char>) -> Seq<Seq<char>>
    decreases s.len(),
{
    if s.len() == 0 {
        seq![]
    } else {
        let n = run_len(s, CharClass::OneOf("\n"), false) as int;
        if n >= s.len() {
            seq![s]
        } else {
            seq![without_return(s.take(n))] + lines(s.skip(n + 1))
        }
    }
}

/// Splits a text into lines, as `str::lines` does.
pub fn split_lines<'a>(s: &'a [char]) -> (r: Vec<&'a [char]>)
    ensures
        slice_views(r@) == lines(s@),
{
    broadcast use lemma_slice_views_push;

    let mut out: Vec<&'a [char]> = Vec::new();
    let mut rest = s;
    assert(slice_views(out@) + lines(rest@) =~= lines(s@));
    while rest.len() > 0
        invariant
            slice_views(out@) + lines(rest@) == lines(s@),
        decreases rest@.len(),
    {
        let n: usize = count_run(rest, CharClass::OneOf("\n"), false);
        if n == rest.len() {
            assert(slice_views(out@) + lines(rest@) =~= slice_views(out@).push(rest@));
            out.push(rest);
            return out;
        }
        let m: usize = if n > 0 && rest[n - 1] == '\r' {
            n - 1
        } else {
            n
        };
        let line = slice_subrange(rest, 0, m);
        let next = slice_subrange(rest, n + 1, rest.len());
        assert(line@ =~= without_return(rest@.take(n as int)));
        assert(next@ =~= rest@.skip(n + 1));
        assert(slice_views(out@) + lines(rest@) =~= slice_views(out@).push(line@) + lines(next@));
        out.push(line);
        rest = next;
    }
    assert(slice_views(out@) + lines(rest@) =~= slice_views(out@));
    out
}

/// The texts of a list one after the other, with the separator between them.
pub open spec fn joined(list: Seq<Seq<char>>, sep: Seq<char>) -> Seq<char>
    decreases list.len(),
{
    if list.len() == 0 {
        seq![]
    } else if list.len() == 1 {
        list[0]
    } else {
        joined(list.drop_last(), sep) + sep + list.last()
    }
}

/// Joins texts with a separator between them.
pub fn join(list: &Vec<String>, sep: &str) -> (r: String)
    ensures
        r@ == joined(views(list@), sep@),
{
    let mut out = String::new();
    let mut i: usize = 0;
    while i < list.len()
        invariant
            i <= list.len(),
            out@ == joined(views(list@).take(i as int), sep@),
        decreases list.len() - i,
    {
        if i > 0 {
            out.append(sep);
        }
        out.append(list[i].as_str());
        proof {
            let upto = views(list@).take(i + 1);
            assert(upto.drop_last() =~= views(list@).take(i as int));
            assert(upto.last() == list@[i as int]@);
            if i == 0 {
                assert(out@ =~= upto[0]);
            }
        }
        i = i + 1;
    }
    assert(views(list@).take(i as int) =~= views(list@));
    out
}

/// Joining, from the front.
pub proof fn lemma_joined_front(list: Seq<Seq<char>>, sep: Seq<char>)
    requires
        list.len() >= 2,
    ensures
        joined(list, sep) == list[0] + sep + joined(list.drop_first(), sep),
    decreases list.len(),
{
    let rest = list.drop_first();
    if list.len() == 2 {
        assert(list.drop_last()[0] == list[0]);
        assert(rest[0] == list[1]);
        assert(joined(list.drop_last(), sep) == list[0]);
    } else {
        lemma_joined_front(list.drop_last(), sep);
        assert(list.drop_last().drop_first() =~= rest.drop_last());
        assert(rest.last() == list.last());
        assert(joined(list, sep) =~= list[0] + sep + joined(rest, sep));
    }
}

/// A piece is not empty and holds no character of the class.
pub open spec fn is_piece(s: Seq<char>, class: CharClass) -> bool {
    &&& s.len() > 0
    &&& forall|i: int| 0 <= i < s.len() ==> !class.holds(#[trigger] s[i])
}

/// The pieces of a text are pieces.
pub proof fn lemma_pieces(s: Seq<char>, class: CharClass)
    ensures
        forall|i: int| 0 <= i < pieces(s, class).len() ==> is_piece(#[trigger] pieces(s, class)[i], class),
    decreases s.len(),
{
    if s.len() > 0 {
        if class.holds(s[0]) {
            lemma_pieces(s.drop_first(), class);
            assert(pieces(s, class) == pieces(s.drop_first(), class));
        } else {
            let n = run_len(s, class, false) as int;
            lemma_run_len(s, class, false);
            let rest = pieces(s.skip(n), class);
            lemma_pieces(s.skip(n), class);
            assert forall|i: int| 0 <= i < pieces(s, class).len() implies is_piece(
                #[trigger] pieces(s, class)[i],
                class,
            ) by {
                if i == 0 {
                    assert(pieces(s, class)[0] == s.take(n));
                    assert forall|k: int| 0 <= k < n implies !class.holds(#[trigger] s.take(n)[k]) by {
                        assert(s.take(n)[k] == s[k]);
                    }
                } else {
                    assert(pieces(s, class)[i] == rest[i - 1]);
                }
            }
        }
    } else {
        assert(pieces(s, class) =~= seq![]);
    }
}

proof fn lemma_pieces_after(sep: Seq<char>, s: Seq<char>, class: CharClass)
    requires
        forall|i: int| 0 <= i < sep.len() ==> class.holds(#[trigger] sep[i]),
    ensures
        pieces(sep + s, class) == pieces(s, class),
    decreases sep.len(),
{
    if sep.len() == 0 {
        assert(sep + s =~= s);
    } else {
        assert((sep + s)[0] == sep[0]);
        assert((sep + s).drop_first() =~= sep.drop_first() + s);
        lemma_pieces_after(sep.drop_first(), s, class);
    }
}

/// Joining pieces with a separator of the class and splitting again gives the pieces.
pub proof fn lemma_pieces_joined(list: Seq<Seq<char>>, sep: Seq<char>, class: CharClass)
    requires
        forall|i: int| 0 <= i < list.len() ==> is_piece(#[trigger] list[i], class),
        sep.len() > 0,
        forall|i: int| 0 <= i < sep.len() ==> class.holds(#[trigger] sep[i]),
    ensures
        pieces(joined(list, sep), class) == list,
    decreases list.len(),
{
    let all = joined(list, sep);
    if list.len() == 0 {
        assert(pieces(all, class) =~= list);
    } else {
        assert(is_piece(list[0], class));
        let n = list[0].len();
        assert forall|i: int| 0 <= i < n implies !class.holds(#[trigger] list[0][i]) by {}
        if list.len() == 1 {
            lemma_run_len_is(all, class, false, n);
            assert(all.take(n as int) =~= list[0]);
            assert(all.skip(n as int) =~= seq![]);
            assert(pieces(all.skip(n as int), class) =~= seq![]);
            assert(pieces(all, class) =~= list);
        } else {
            let rest = list.drop_first();
            lemma_joined_front(list, sep);
            assert forall|i: int| 0 <= i < rest.len() implies is_piece(#[trigger] rest[i], class) by {
                assert(rest[i] == list[i + 1]);
            }
            lemma_pieces_joined(rest, sep, class);
            assert forall|i: int| 0 <= i < n implies !class.holds(#[trigger] all[i]) by {
                assert(all[i] == list[0][i]);
            }
            assert(all[n as int] == sep[0]);
            lemma_run_len_is(all, class, false, n);
            assert(all.take(n as int) =~= list[0]);
            assert(all.skip(n as int) =~= sep + joined(rest, sep));
            lemma_pieces_after(sep, joined(rest, sep), class);
            assert(all[0] == list[0][0]);
            assert(pieces(all, class) =~= list);
        }
    }
}

/// A text is its first line, up to a line feed and without the carriage return before it,
/// and then the lines of the rest.
pub proof fn law_lines_end_at_line_feeds(a: Seq<char>, b: Seq<char>)
    requires
        !a.contains('\n'),
    ensures
        lines(a + seq!['\n'] + b) == seq![
            if a.len() > 0 && a.last() == '\r' {
                a.drop_last()
            } else {
                a
            },
        ] + lines(b),
        a.len() > 0 ==> lines(a) == seq![a],
        lines(seq![]).len() == 0,
{
    reveal_strlit("\n");
    let feed = CharClass::OneOf("\n");
    assert("\n"@ =~= seq!['\n']);
    assert("\n"@[0] == '\n');
    assert(feed.holds('\n'));
    assert forall|i: int| 0 <= i < a.len() implies !feed.holds(#[trigger] a[i]) by {
        if feed.holds(a[i]) {
            assert(a[i] == '\n');
            assert(a.contains(a[i]));
        }
    }
    let s = a + seq!['\n'] + b;
    assert forall|i: int| 0 <= i < a.len() implies !feed.holds(#[trigger] s[i]) by {
        assert(s[i] == a[i]);
    }
    assert(s[a.len() as int] == '\n');
    lemma_run_len_is(s, feed, false, a.len());
    assert(s.take(a.len() as int) =~= a);
    assert(s.skip(a.len() + 1int) =~= b);
    lemma_run_len_is(a, feed, false, a.len());
}

} // verus!
