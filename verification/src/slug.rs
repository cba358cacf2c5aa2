//! Identifiers made from names.

use vstd::prelude::*;
use vstd::utf8::is_ascii_chars;
use crate::split::{
    is_piece, join, joined, lemma_joined_front, lemma_pieces, lemma_pieces_joined, pieces,
    slice_views, split_class,
};
use crate::text::{
    ascii_lower, chars, lemma_run_len, lemma_trim_of_fixed, lemma_views_push, lowercase, lowered,
    no_capital, run_len, string, trim_str, trimmed, views, CharClass,
};

verus! {

/// A letter or digit of ASCII.
pub open spec fn alphanumeric(c: char) -> bool {
    ||| 'a' <= c && c <= 'z'
    ||| 'A' <= c && c <= 'Z'
    ||| '0' <= c && c <= '9'
}

/// A text with a hyphen for every character that is no letter or digit of ASCII.
pub open spec fn dashed(s: Seq<char>) -> Seq<char> {
    s.map_values(
        |c: char|
            if alphanumeric(c) {
                c
            } else {
                '-'
            },
    )
}

/// The letters and digits of a text, with single hyphens between the runs of them.
pub open spec fn slug(s: Seq<char>) -> Seq<char> {
    joined(pieces(dashed(s), CharClass::OneOf("-")), "-"@)
}

/// The slug of a text, or another where it is empty.
pub open spec fn slug_or(s: Seq<char>, fallback: Seq<char>) -> Seq<char> {
    if slug(s).len() == 0 {
        fallback
    } else {
        slug(s)
    }
}

fn own_pieces(list: &Vec<&[char]>) -> (r: Vec<String>)
    ensures
        views(r@) == slice_views(list@),
{
    broadcast use lemma_views_push;

    let mut out: Vec<String> = Vec::new();
    let mut i: usize = 0;
    assert(views(out@) =~= slice_views(list@).take(0));
    while i < list.len()
        invariant
            i <= list@.len(),
            views(out@) == slice_views(list@).take(i as int),
        decreases list@.len() - i,
    {
        out.push(string(list[i]));
        assert(slice_views(list@).take(i + 1) =~= slice_views(list@).take(i as int).push(
            list@[i as int]@,
        ));
        i = i + 1;
    }
    assert(slice_views(list@).take(i as int) =~= slice_views(list@));
    out
}

/// The slug of a text in small letters, or another where it is empty.
pub fn make_slug(lower: &[char], fallback: &str) -> (r: String)
    ensures
        r@ == slug_or(lower@, fallback@),
{
    let mut marked: Vec<char> = Vec::new();
    let mut i: usize = 0;
    while i < lower.len()
        invariant
            i <= lower@.len(),
            marked@ == dashed(lower@.take(i as int)),
        decreases lower@.len() - i,
    {
        let c = lower[i];
        let ghost before = lower@.take(i as int);
        assert(lower@.take(i + 1) =~= before.push(c));
        if ('a' <= c && c <= 'z') || ('A' <= c && c <= 'Z') || ('0' <= c && c <= '9') {
            marked.push(c);
        } else {
            marked.push('-');
        }
        assert(marked@ =~= dashed(before.push(c)));
        i = i + 1;
    }
    assert(lower@.take(i as int) =~= lower@);
    let parts = split_class(marked.as_slice(), CharClass::OneOf("-"));
    let id = join(&own_pieces(&parts), "-");
    if id.as_str().is_empty() {
        fallback.to_string()
    } else {
        id
    }
}

/// The text holds a letter or digit of ASCII.
pub open spec fn has_sign(s: Seq<char>) -> bool {
    exists|i: int| 0 <= i < s.len() && alphanumeric(#[trigger] s[i])
}

/// The text is an identifier: small letters and digits of ASCII, with single hyphens
/// between runs of them.
pub open spec fn is_id(s: Seq<char>) -> bool {
    &&& s.len() > 0
    &&& is_slug(s)
    &&& no_capital(s)
}

/// Makes an identifier from a text: one of small letters and digits where the text in
/// small letters holds any, else the fallback as it is. A text that is an identifier
/// stays as it is.
pub fn sanitize_id(value: &str, fallback: &str) -> (r: String)
    ensures
        r@ == slug_or(lowered(trimmed(value@)), fallback@),
        has_sign(lowered(trimmed(value@))) ==> is_id(r@),
        !has_sign(lowered(trimmed(value@))) ==> r@ == fallback@,
        is_id(value@) ==> r@ == value@,
{
    let lower = lowercase(trim_str(value).as_str());
    proof {
        law_identifiers_are_plain(lower@, fallback@);
        if is_id(value@) {
            lemma_id_is_kept(value@);
            assert(trimmed(value@).map_values(|c: char| ascii_lower(c)) =~= value@);
            lemma_slug_of_slug(value@);
        }
    }
    make_slug(chars(lower.as_str()).as_slice(), fallback)
}

/// The text is a slug: letters and digits of ASCII, with single hyphens between them.
pub open spec fn is_slug(s: Seq<char>) -> bool {
    &&& forall|i: int| 0 <= i < s.len() ==> (alphanumeric(#[trigger] s[i]) || s[i] == '-')
    &&& s.len() > 0 ==> s[0] != '-' && s.last() != '-'
    &&& forall|i: int| 0 <= i < s.len() - 1 ==> !(#[trigger] s[i] == '-' && s[i + 1] == '-')
}

proof fn lemma_joined_is_slug(list: Seq<Seq<char>>)
    requires
        forall|i: int| 0 <= i < list.len() ==> (#[trigger] list[i]).len() > 0,
        forall|i: int, k: int|
            #![trigger list[i][k]]
            0 <= i < list.len() && 0 <= k < list[i].len() ==> alphanumeric(list[i][k]),
    ensures
        is_slug(joined(list, "-"@)),
        list.len() > 0 ==> joined(list, "-"@).len() > 0,
    decreases list.len(),
{
    reveal_strlit("-");
    let s = joined(list, "-"@);
    if list.len() == 0 {
    } else if list.len() == 1 {
        assert(list[0].len() > 0);
        assert forall|i: int| 0 <= i < s.len() implies alphanumeric(#[trigger] s[i]) by {
            assert(s[i] == list[0][i]);
        }
    } else {
        let front = list.drop_last();
        let last = list.last();
        assert forall|i: int| 0 <= i < front.len() implies (#[trigger] front[i]).len() > 0 by {
            assert(front[i] == list[i]);
        }
        assert forall|i: int, k: int|
            #![trigger front[i][k]]
            0 <= i < front.len() && 0 <= k < front[i].len() implies alphanumeric(front[i][k]) by {
            assert(front[i][k] == list[i][k]);
        }
        lemma_joined_is_slug(front);
        let f = joined(front, "-"@);
        assert(last == list[list.len() - 1]);
        assert(last.len() > 0);
        let n = f.len();
        assert forall|i: int| 0 <= i < s.len() implies (alphanumeric(#[trigger] s[i]) || s[i]
            == '-') by {
            if i < n {
                assert(s[i] == f[i]);
            } else if i > n {
                assert(s[i] == list[list.len() - 1][i - n - 1]);
            }
        }
        assert(s[0] == f[0]);
        assert(s.last() == list[list.len() - 1][last.len() - 1]);
        assert forall|i: int| 0 <= i < s.len() - 1 implies !(#[trigger] s[i] == '-' && s[i + 1]
            == '-') by {
            if i + 1 < n {
                assert(s[i] == f[i] && s[i + 1] == f[i + 1]);
            } else if i + 1 == n {
                assert(s[i] == f.last());
            } else {
                assert(s[i + 1] == list[list.len() - 1][i - n]);
            }
        }
    }
}

proof fn lemma_slug_pieces(s: Seq<char>)
    ensures
        forall|i: int|
            0 <= i < pieces(dashed(s), CharClass::OneOf("-")).len() ==> (
            #[trigger] pieces(dashed(s), CharClass::OneOf("-"))[i]).len() > 0,
        forall|i: int, k: int|
            #![trigger pieces(dashed(s), CharClass::OneOf("-"))[i][k]]
            0 <= i < pieces(dashed(s), CharClass::OneOf("-")).len() && 0 <= k < pieces(
                dashed(s),
                CharClass::OneOf("-"),
            )[i].len() ==> alphanumeric(pieces(dashed(s), CharClass::OneOf("-"))[i][k]),
{
    reveal_strlit("-");
    let d = dashed(s);
    let class = CharClass::OneOf("-");
    let list = pieces(d, class);
    lemma_pieces(d, class);
    lemma_pieces_within(d, class);
    assert(forall|i: int| 0 <= i < list.len() ==> is_piece(#[trigger] list[i], class));
    assert("-"@[0] == '-');
    assert(class.holds('-'));
    assert forall|i: int, k: int|
        #![trigger list[i][k]]
        0 <= i < list.len() && 0 <= k < list[i].len() implies alphanumeric(list[i][k]) by {
        assert(is_piece(list[i], class));
        assert(!class.holds(list[i][k]));
        assert(d.contains(list[i][k]));
        let at = choose|at: int| 0 <= at < d.len() && d[at] == list[i][k];
        assert(d[at] == if alphanumeric(s[at]) {
            s[at]
        } else {
            '-'
        });
    }
}

/// The characters of the pieces are characters of the text.
proof fn lemma_pieces_within(s: Seq<char>, class: CharClass)
    ensures
        forall|i: int, k: int|
            #![trigger pieces(s, class)[i][k]]
            0 <= i < pieces(s, class).len() && 0 <= k < pieces(s, class)[i].len() ==> s.contains(
                pieces(s, class)[i][k],
            ),
    decreases s.len(),
{
    let list = pieces(s, class);
    if s.len() == 0 {
        assert(list =~= seq![]);
    } else if class.holds(s[0]) {
        let rest = s.drop_first();
        lemma_pieces_within(rest, class);
        assert(list == pieces(rest, class));
        assert forall|i: int, k: int|
            #![trigger list[i][k]]
            0 <= i < list.len() && 0 <= k < list[i].len() implies s.contains(list[i][k]) by {
            assert(rest.contains(pieces(rest, class)[i][k]));
            let at = choose|at: int| 0 <= at < rest.len() && rest[at] == list[i][k];
            assert(s[at + 1] == list[i][k]);
        }
    } else {
        let n = run_len(s, class, false) as int;
        lemma_run_len(s, class, false);
        let rest = s.skip(n);
        lemma_pieces_within(rest, class);
        let tail = pieces(rest, class);
        assert forall|i: int, k: int|
            #![trigger list[i][k]]
            0 <= i < list.len() && 0 <= k < list[i].len() implies s.contains(list[i][k]) by {
            if i == 0 {
                assert(list[0] == s.take(n));
                assert(s[k] == list[0][k]);
            } else {
                assert(list[i] == tail[i - 1]);
                assert(rest.contains(tail[i - 1][k]));
                let at = choose|at: int| 0 <= at < rest.len() && rest[at] == list[i][k];
                assert(s[at + n] == list[i][k]);
            }
        }
    }
}

/// An identifier holds letters and digits of ASCII, with single hyphens between them.
pub proof fn law_slugs_are_plain(s: Seq<char>)
    ensures
        is_slug(slug(s)),
{
    lemma_slug_pieces(s);
    lemma_joined_is_slug(pieces(dashed(s), CharClass::OneOf("-")));
}

/// The pieces of a slug, joined again.
proof fn lemma_slug_of_slug(s: Seq<char>)
    requires
        is_slug(s),
    ensures
        slug(s) == s,
    decreases s.len(),
{
    reveal_strlit("-");
    let class = CharClass::OneOf("-");
    assert("-"@[0] == '-');
    assert(forall|c: char| class.holds(c) == (c == '-')) by {
        assert forall|c: char| class.holds(c) == (c == '-') by {
            if class.holds(c) {
                assert("-"@.contains(c));
            }
        }
    }
    assert(dashed(s) =~= s);
    let list = pieces(s, class);
    if s.len() == 0 {
        assert(list =~= seq![]);
    } else {
        let n = run_len(s, class, false) as int;
        lemma_run_len(s, class, false);
        let rest = s.skip(n);
        let tail = pieces(rest, class);
        assert(list == seq![s.take(n)] + tail);
        if n == s.len() {
            assert(tail =~= seq![]);
            assert(s.take(n) =~= s);
        } else {
            let next = s.skip(n + 1);
            assert(s[n] == '-');
            assert(rest.drop_first() =~= next);
            assert(rest[0] == s[n]);
            assert(n + 1 < s.len()) by {
                assert(s.last() != '-');
            }
            assert(next[0] == s[n + 1]);
            assert(is_slug(next)) by {
                assert forall|i: int| 0 <= i < next.len() implies (alphanumeric(#[trigger] next[i])
                    || next[i] == '-') by {
                    assert(next[i] == s[i + n + 1]);
                }
                assert(next.last() == s.last());
                assert forall|i: int| 0 <= i < next.len() - 1 implies !(#[trigger] next[i] == '-'
                    && next[i + 1] == '-') by {
                    assert(next[i] == s[i + n + 1] && next[i + 1] == s[i + n + 2]);
                }
            }
            lemma_slug_of_slug(next);
            assert(dashed(next) =~= next);
            assert(tail == pieces(next, class));
            assert(tail.len() > 0) by {
                assert(!class.holds(next[0]));
            }
            lemma_joined_front(list, "-"@);
            assert(list.drop_first() =~= tail);
            assert(s =~= s.take(n) + "-"@ + next);
        }
    }
}

/// There are no pieces where all characters are in the class, and only there.
proof fn lemma_no_pieces(s: Seq<char>, class: CharClass)
    ensures
        (pieces(s, class).len() == 0) == (forall|i: int|
            0 <= i < s.len() ==> class.holds(#[trigger] s[i])),
    decreases s.len(),
{
    if s.len() > 0 && class.holds(s[0]) {
        let rest = s.drop_first();
        lemma_no_pieces(rest, class);
        if pieces(rest, class).len() == 0 {
            assert forall|i: int| 0 <= i < s.len() implies class.holds(#[trigger] s[i]) by {
                if i > 0 {
                    assert(s[i] == rest[i - 1]);
                }
            }
        } else {
            let i = choose|i: int| 0 <= i < rest.len() && !class.holds(#[trigger] rest[i]);
            assert(s[i + 1] == rest[i]);
        }
    }
}

/// An identifier is of ASCII and has no white space around it.
proof fn lemma_id_is_kept(s: Seq<char>)
    requires
        is_id(s),
    ensures
        trimmed(s) == s,
        is_ascii_chars(s),
        s.map_values(|c: char| ascii_lower(c)) == s,
{
    assert(alphanumeric(s[0]) && alphanumeric(s.last()));
    lemma_trim_of_fixed(s, CharClass::White);
    assert forall|i: int| 0 <= i < s.len() implies '\0' <= #[trigger] s[i] <= '\u{7f}' by {
        assert(alphanumeric(s[i]) || s[i] == '-');
    }
    assert(s.map_values(|c: char| ascii_lower(c)) =~= s);
}

/// Making an identifier of an identifier changes nothing.
pub proof fn law_slugs_are_stable(s: Seq<char>)
    ensures
        slug(slug(s)) == slug(s),
{
    law_slugs_are_plain(s);
    lemma_slug_of_slug(slug(s));
}

/// A text in small letters gives an identifier if it holds a letter or digit, and that
/// gives itself again; else it gives the fallback.
pub proof fn law_identifiers_are_plain(lower: Seq<char>, fallback: Seq<char>)
    requires
        no_capital(lower),
    ensures
        has_sign(lower) ==> {
            &&& is_id(slug_or(lower, fallback))
            &&& slug_or(slug_or(lower, fallback), fallback) == slug_or(lower, fallback)
        },
        !has_sign(lower) ==> slug_or(lower, fallback) == fallback,
{
    reveal_strlit("-");
    let class = CharClass::OneOf("-");
    let d = dashed(lower);
    let list = pieces(d, class);
    assert("-"@[0] == '-');
    assert(class.holds('-'));
    law_slugs_are_plain(lower);
    law_slugs_are_stable(lower);
    lemma_slug_pieces(lower);
    lemma_joined_is_slug(list);
    lemma_no_pieces(d, class);
    if has_sign(lower) {
        let i = choose|i: int| 0 <= i < lower.len() && alphanumeric(#[trigger] lower[i]);
        assert(d[i] == lower[i]);
        assert(!class.holds(d[i])) by {
            if class.holds(d[i]) {
                assert("-"@.contains(d[i]));
            }
        }
        assert(list.len() > 0);
        lemma_pieces_within(d, class);
        lemma_joined_no_capital(list, d);
    } else {
        assert forall|i: int| 0 <= i < d.len() implies class.holds(#[trigger] d[i]) by {
            assert(!alphanumeric(lower[i]));
        }
    }
}

/// Pieces of a text without capitals hold none when they are joined.
proof fn lemma_joined_no_capital(list: Seq<Seq<char>>, s: Seq<char>)
    requires
        no_capital(s),
        forall|i: int, k: int|
            #![trigger list[i][k]]
            0 <= i < list.len() && 0 <= k < list[i].len() ==> s.contains(list[i][k]),
    ensures
        no_capital(joined(list, "-"@)),
    decreases list.len(),
{
    reveal_strlit("-");
    let all = joined(list, "-"@);
    if list.len() == 1 {
        assert forall|i: int| 0 <= i < all.len() implies !('A' <= #[trigger] all[i] && all[i]
            <= 'Z') by {
            assert(s.contains(list[0][i]));
        }
    } else if list.len() > 1 {
        let front = list.drop_last();
        assert forall|i: int, k: int|
            #![trigger front[i][k]]
            0 <= i < front.len() && 0 <= k < front[i].len() implies s.contains(front[i][k]) by {
            assert(front[i][k] == list[i][k]);
        }
        lemma_joined_no_capital(front, s);
        let f = joined(front, "-"@);
        assert forall|i: int| 0 <= i < all.len() implies !('A' <= #[trigger] all[i] && all[i]
            <= 'Z') by {
            if i < f.len() {
                assert(all[i] == f[i]);
            } else if i > f.len() {
                assert(all[i] == list[list.len() - 1][i - f.len() - 1]);
            }
        }
    }
}

/// Runs of letters and digits are kept as they are and in their order, and whatever stands
/// between them becomes one hyphen.
pub proof fn law_slugs_keep_letters_and_digits(list: Seq<Seq<char>>, sep: Seq<char>)
    requires
        sep.len() > 0,
        forall|i: int| 0 <= i < sep.len() ==> !alphanumeric(#[trigger] sep[i]),
        forall|i: int| 0 <= i < list.len() ==> (#[trigger] list[i]).len() > 0,
        forall|i: int, k: int|
            #![trigger list[i][k]]
            0 <= i < list.len() && 0 <= k < list[i].len() ==> alphanumeric(list[i][k]),
    ensures
        slug(joined(list, sep)) == joined(list, "-"@),
{
    reveal_strlit("-");
    let class = CharClass::OneOf("-");
    assert("-"@ =~= seq!['-']);
    assert("-"@[0] == '-');
    assert(class.holds('-'));
    lemma_dashed_joined(list, sep);
    let dashes = dashed(sep);
    assert forall|i: int| 0 <= i < list.len() implies is_piece(#[trigger] list[i], class) by {
        assert forall|k: int| 0 <= k < list[i].len() implies !class.holds(#[trigger] list[i][k]) by {
            assert(alphanumeric(list[i][k]));
        }
    }
    assert forall|i: int| 0 <= i < dashes.len() implies class.holds(#[trigger] dashes[i]) by {
        assert(!alphanumeric(sep[i]));
    }
    lemma_pieces_joined(list, dashes, class);
}

/// Pieces of letters and digits stay as they are where the rest becomes hyphens.
proof fn lemma_dashed_joined(list: Seq<Seq<char>>, sep: Seq<char>)
    requires
        forall|i: int, k: int|
            #![trigger list[i][k]]
            0 <= i < list.len() && 0 <= k < list[i].len() ==> alphanumeric(list[i][k]),
    ensures
        dashed(joined(list, sep)) == joined(list, dashed(sep)),
    decreases list.len(),
{
    if list.len() == 0 {
        assert(dashed(joined(list, sep)) =~= joined(list, dashed(sep)));
    } else {
        let last = list.last();
        assert(dashed(last) =~= last) by {
            assert forall|k: int| 0 <= k < last.len() implies dashed(last)[k] == last[k] by {
                assert(alphanumeric(list[list.len() - 1][k]));
            }
        }
        if list.len() == 1 {
            assert(joined(list, sep) == last);
        } else {
            let front = list.drop_last();
            assert forall|i: int, k: int|
                #![trigger front[i][k]]
                0 <= i < front.len() && 0 <= k < front[i].len() implies alphanumeric(
                front[i][k],
            ) by {
                assert(front[i][k] == list[i][k]);
            }
            lemma_dashed_joined(front, sep);
            let f = joined(front, sep);
            assert(dashed(f + sep + last) =~= dashed(f) + dashed(sep) + dashed(last));
        }
    }
}

} // verus!
