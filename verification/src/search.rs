//! Searching and splitting text.

use vstd::prelude::*;
use vstd::slice::slice_subrange;
use crate::text::{chars, count_run, run_len, CharClass};

verus! {

/// The pattern stands in the text from position `i` on.
pub open spec fn matches_at(s: Seq<char>, pat: Seq<char>, i: int) -> bool {
    0 <= i && i + pat.len() <= s.len() && s.subrange(i, i + pat.len()) == pat
}

/// The pattern stands somewhere in the text.
pub open spec fn contains_text(s: Seq<char>, pat: Seq<char>) -> bool {
    exists|i: int| matches_at(s, pat, i)
}

/// The text starts with the pattern.
pub open spec fn starts(s: Seq<char>, pat: Seq<char>) -> bool {
    matches_at(s, pat, 0)
}

/// The text ends with the pattern.
pub open spec fn ends(s: Seq<char>, pat: Seq<char>) -> bool {
    matches_at(s, pat, s.len() - pat.len())
}

/// The first position from `i` on where the pattern stands.
pub open spec fn find_from(s: Seq<char>, pat: Seq<char>, i: int) -> Option<int>
    decreases s.len() - i + 1,
{
    if i < 0 || i + pat.len() > s.len() {
        None
    } else if matches_at(s, pat, i) {
        Some(i)
    } else {
        find_from(s, pat, i + 1)
    }
}

/// The first position where the pattern stands.
pub open spec fn find(s: Seq<char>, pat: Seq<char>) -> Option<int> {
    find_from(s, pat, 0)
}

/// The last position up to `i` where the pattern stands.
pub open spec fn rfind_from(s: Seq<char>, pat: Seq<char>, i: int) -> Option<int>
    decreases i + 1,
{
    if i < 0 {
        None
    } else if matches_at(s, pat, i) {
        Some(i)
    } else {
        rfind_from(s, pat, i - 1)
    }
}

/// The last position where the pattern stands.
pub open spec fn rfind(s: Seq<char>, pat: Seq<char>) -> Option<int> {
    rfind_from(s, pat, s.len() - pat.len())
}

pub proof fn lemma_find_from(s: Seq<char>, pat: Seq<char>, i: int)
    requires
        0 <= i,
    ensures
        match find_from(s, pat, i) {
            Some(k) => {
                &&& i <= k
                &&& matches_at(s, pat, k)
                &&& forall|j: int| i <= j < k ==> !matches_at(s, pat, j)
            },
            None => forall|j: int| i <= j ==> !matches_at(s, pat, j),
        },
    decreases s.len() - i + 1,
{
    if i + pat.len() <= s.len() && !matches_at(s, pat, i) {
        lemma_find_from(s, pat, i + 1);
    }
}

/// `find` gives the least position where the pattern stands, if there is one.
pub proof fn lemma_find(s: Seq<char>, pat: Seq<char>)
    ensures
        match find(s, pat) {
            Some(k) => {
                &&& matches_at(s, pat, k)
                &&& forall|j: int| 0 <= j < k ==> !matches_at(s, pat, j)
            },
            None => forall|j: int| !matches_at(s, pat, j),
        },
        contains_text(s, pat) == (find(s, pat) is Some),
{
    lemma_find_from(s, pat, 0);
    if find(s, pat) is Some {
        assert(matches_at(s, pat, find(s, pat)->0));
    }
}

pub proof fn lemma_rfind_from(s: Seq<char>, pat: Seq<char>, i: int)
    ensures
        match rfind_from(s, pat, i) {
            Some(k) => {
                &&& k <= i
                &&& matches_at(s, pat, k)
                &&& forall|j: int| k < j <= i ==> !matches_at(s, pat, j)
            },
            None => forall|j: int| j <= i ==> !matches_at(s, pat, j),
        },
    decreases i + 1,
{
    if i >= 0 && !matches_at(s, pat, i) {
        lemma_rfind_from(s, pat, i - 1);
    }
}

/// `rfind` gives the greatest position where the pattern stands, if there is one.
pub proof fn lemma_rfind(s: Seq<char>, pat: Seq<char>)
    ensures
        match rfind(s, pat) {
            Some(k) => {
                &&& matches_at(s, pat, k)
                &&& forall|j: int| k < j ==> !matches_at(s, pat, j)
            },
            None => forall|j: int| !matches_at(s, pat, j),
        },
{
    lemma_rfind_from(s, pat, s.len() - pat.len());
}

/// Tells whether the pattern stands at position `i`.
pub fn match_at(s: &[char], pat: &[char], i: usize) -> (r: bool)
    requires
        i + pat@.len() <= s@.len(),
    ensures
        r == matches_at(s@, pat@, i as int),
{
    let n: usize = s.len();
    let mut j: usize = 0;
    while j < pat.len()
        invariant
            j <= pat.len(),
            n == s@.len(),
            i + pat@.len() <= n,
            forall|k: int| 0 <= k < j ==> s@[i + k] == #[trigger] pat@[k],
        decreases pat.len() - j,
    {
        if s[i + j] != pat[j] {
            assert(s@.subrange(i as int, i + pat@.len())[j as int] != pat@[j as int]);
            return false;
        }
        j = j + 1;
    }
    assert(s@.subrange(i as int, i + pat@.len()) =~= pat@);
    true
}

/// The first position of a pattern, as `str::find` gives it, counted in characters.
pub fn find_text(s: &[char], pat: &str) -> (r: Option<usize>)
    ensures
        match r {
            Some(k) => find(s@, pat@) == Some(k as int),
            None => find(s@, pat@) is None,
        },
        r is Some ==> r->0 + pat@.len() <= s@.len(),
{
    let p = chars(pat);
    let mut i: usize = 0;
    while i <= s.len() && p.len() <= s.len() - i
        invariant
            i <= s.len() + 1,
            p@ == pat@,
            s.len() < usize::MAX || i <= s.len(),
            find(s@, pat@) == find_from(s@, pat@, i as int),
        decreases s.len() + 1 - i,
    {
        if match_at(s, p.as_slice(), i) {
            return Some(i);
        }
        if i == s.len() {
            assert(find_from(s@, pat@, i + 1) is None);
            return None;
        }
        i = i + 1;
    }
    None
}

/// The last position of a pattern, as `str::rfind` gives it, counted in characters.
pub fn rfind_text(s: &[char], pat: &str) -> (r: Option<usize>)
    ensures
        match r {
            Some(k) => rfind(s@, pat@) == Some(k as int),
            None => rfind(s@, pat@) is None,
        },
        r is Some ==> r->0 + pat@.len() <= s@.len(),
{
    let p = chars(pat);
    if p.len() > s.len() {
        return None;
    }
    let mut i: usize = s.len() - p.len();
    loop
        invariant
            i + p@.len() <= s@.len(),
            p@ == pat@,
            rfind(s@, pat@) == rfind_from(s@, pat@, i as int),
        decreases i,
    {
        if match_at(s, p.as_slice(), i) {
            return Some(i);
        }
        if i == 0 {
            assert(rfind_from(s@, pat@, -1) is None);
            return None;
        }
        i = i - 1;
    }
}

/// Tells whether the pattern stands somewhere in the text, as `str::contains` does.
pub fn has(s: &[char], pat: &str) -> (r: bool)
    ensures
        r == contains_text(s@, pat@),
{
    proof {
        lemma_find(s@, pat@);
    }
    find_text(s, pat).is_some()
}

/// Tells whether the text starts with the pattern.
pub fn starts_with(s: &[char], pat: &str) -> (r: bool)
    ensures
        r == starts(s@, pat@),
{
    let p = chars(pat);
    p.len() <= s.len() && match_at(s, p.as_slice(), 0)
}

/// Tells whether the text ends with the pattern.
pub fn ends_with(s: &[char], pat: &str) -> (r: bool)
    ensures
        r == ends(s@, pat@),
{
    let p = chars(pat);
    p.len() <= s.len() && match_at(s, p.as_slice(), s.len() - p.len())
}

/// Tells whether a slice of characters is a given text.
pub fn is_text(s: &[char], pat: &str) -> (r: bool)
    ensures
        r == (s@ == pat@),
{
    let p = chars(pat);
    if p.len() != s.len() {
        return false;
    }
    let r = match_at(s, p.as_slice(), 0);
    assert(s@.subrange(0, s@.len() as int) =~= s@);
    r
}

/// What follows the pattern at the start of a text.
pub open spec fn after_prefix(s: Seq<char>, pat: Seq<char>) -> Option<Seq<char>> {
    if starts(s, pat) {
        Some(s.skip(pat.len() as int))
    } else {
        None
    }
}

/// What follows the pattern at the start, as `str::strip_prefix` gives it.
pub fn strip_prefix<'a>(s: &'a [char], pat: &str) -> (r: Option<&'a [char]>)
    ensures
        match r {
            Some(t) => after_prefix(s@, pat@) == Some(t@),
            None => after_prefix(s@, pat@) is None,
        },
{
    if starts_with(s, pat) {
        let n: usize = chars(pat).len();
        let t = slice_subrange(s, n, s.len());
        assert(t@ =~= s@.skip(pat@.len() as int));
        Some(t)
    } else {
        None
    }
}

/// The two sides of the first occurrence of a pattern.
pub open spec fn split_first(s: Seq<char>, pat: Seq<char>) -> Option<(Seq<char>, Seq<char>)> {
    match find(s, pat) {
        Some(k) => Some((s.take(k), s.skip(k + pat.len()))),
        None => None,
    }
}

/// The two sides of the last occurrence of a pattern.
pub open spec fn split_last(s: Seq<char>, pat: Seq<char>) -> Option<(Seq<char>, Seq<char>)> {
    match rfind(s, pat) {
        Some(k) => Some((s.take(k), s.skip(k + pat.len()))),
        None => None,
    }
}

/// Splits at the first occurrence, as `str::split_once` does.
pub fn split_once<'a>(s: &'a [char], pat: &str) -> (r: Option<(&'a [char], &'a [char])>)
    ensures
        match r {
            Some((a, b)) => split_first(s@, pat@) == Some((a@, b@)),
            None => split_first(s@, pat@) is None,
        },
{
    match find_text(s, pat) {
        Some(k) => {
            let n: usize = chars(pat).len();
            let end: usize = s.len();
            let a = slice_subrange(s, 0, k);
            let b = slice_subrange(s, k + n, end);
            assert(a@ =~= s@.take(k as int));
            assert(b@ =~= s@.skip(k + pat@.len()));
            Some((a, b))
        },
        None => None,
    }
}

/// Splits at the last occurrence, as `str::rsplit_once` does.
pub fn rsplit_once<'a>(s: &'a [char], pat: &str) -> (r: Option<(&'a [char], &'a [char])>)
    ensures
        match r {
            Some((a, b)) => split_last(s@, pat@) == Some((a@, b@)),
            None => split_last(s@, pat@) is None,
        },
{
    match rfind_text(s, pat) {
        Some(k) => {
            let n: usize = chars(pat).len();
            let end: usize = s.len();
            let a = slice_subrange(s, 0, k);
            let b = slice_subrange(s, k + n, end);
            assert(a@ =~= s@.take(k as int));
            assert(b@ =~= s@.skip(k + pat@.len()));
            Some((a, b))
        },
        None => None,
    }
}

/// The text before the first character of the class.
pub open spec fn before_class(s: Seq<char>, class: CharClass) -> Seq<char> {
    s.take(run_len(s, class, false) as int)
}

/// The first piece of a text split at the characters of a class.
pub fn first_piece<'a>(s: &'a [char], class: CharClass) -> (r: &'a [char])
    ensures
        r@ == before_class(s@, class),
{
    let n: usize = count_run(s, class, false);
    let r = slice_subrange(s, 0, n);
    assert(r@ =~= s@.take(n as int));
    r
}

/// The text without the copies of a pattern at its end.
pub open spec fn without_suffixes(s: Seq<char>, pat: Seq<char>) -> Seq<char>
    decreases s.len(),
{
    if pat.len() > 0 && ends(s, pat) {
        without_suffixes(s.take(s.len() - pat.len()), pat)
    } else {
        s
    }
}

/// The text without the copies of a pattern at its start.
pub open spec fn without_prefixes(s: Seq<char>, pat: Seq<char>) -> Seq<char>
    decreases s.len(),
{
    if pat.len() > 0 && starts(s, pat) {
        without_prefixes(s.skip(pat.len() as int), pat)
    } else {
        s
    }
}

/// Strips every copy of a pattern at the end, as `str::trim_end_matches` does.
pub fn strip_suffixes<'a>(s: &'a [char], pat: &str) -> (r: &'a [char])
    ensures
        r@ == without_suffixes(s@, pat@),
{
    let n: usize = chars(pat).len();
    let mut rest = s;
    while n > 0 && ends_with(rest, pat)
        invariant
            n == pat@.len(),
            without_suffixes(rest@, pat@) == without_suffixes(s@, pat@),
        decreases rest@.len(),
    {
        let shorter = slice_subrange(rest, 0, rest.len() - n);
        assert(shorter@ =~= rest@.take(rest@.len() - pat@.len()));
        rest = shorter;
    }
    rest
}

/// Strips every copy of a pattern at the start, as `str::trim_start_matches` does.
pub fn strip_prefixes<'a>(s: &'a [char], pat: &str) -> (r: &'a [char])
    ensures
        r@ == without_prefixes(s@, pat@),
{
    let n: usize = chars(pat).len();
    let mut rest = s;
    while n > 0 && starts_with(rest, pat)
        invariant
            n == pat@.len(),
            without_prefixes(rest@, pat@) == without_prefixes(s@, pat@),
        decreases rest@.len(),
    {
        let shorter = slice_subrange(rest, n, rest.len());
        assert(shorter@ =~= rest@.skip(pat@.len() as int));
        rest = shorter;
    }
    rest
}

/// What is left without prefixes does not begin with one, and the text is that with the
/// prefix before it, as often as it was there.
pub proof fn law_prefixes_are_taken_away(s: Seq<char>, pat: Seq<char>)
    requires
        pat.len() > 0,
    ensures
        !starts(without_prefixes(s, pat), pat),
        !starts(s, pat) ==> without_prefixes(s, pat) == s,
        without_prefixes(pat + s, pat) == without_prefixes(s, pat),
    decreases s.len(),
{
    let all = pat + s;
    assert(all.subrange(0, pat.len() as int) =~= pat);
    assert(all.skip(pat.len() as int) =~= s);
    if starts(s, pat) {
        law_prefixes_are_taken_away(s.skip(pat.len() as int), pat);
    }
}

/// What is left without suffixes does not end with one, and the text is that with the
/// suffix behind it, as often as it was there.
pub proof fn law_suffixes_are_taken_away(s: Seq<char>, pat: Seq<char>)
    requires
        pat.len() > 0,
    ensures
        !ends(without_suffixes(s, pat), pat),
        !ends(s, pat) ==> without_suffixes(s, pat) == s,
        without_suffixes(s + pat, pat) == without_suffixes(s, pat),
    decreases s.len(),
{
    let all = s + pat;
    assert(all.subrange(all.len() - pat.len(), all.len() as int) =~= pat);
    assert(all.take(all.len() - pat.len()) =~= s);
    if ends(s, pat) {
        law_suffixes_are_taken_away(s.take(s.len() - pat.len()), pat);
    }
}

/// A text is split at the first place, or the last, where the separator stands: before it
/// is what stands before, behind it what stands behind.
pub proof fn law_texts_are_split_at_the_separator(s: Seq<char>, pat: Seq<char>)
    ensures
        match split_first(s, pat) {
            Some((a, b)) => {
                &&& a + pat + b == s
                &&& forall|i: int| 0 <= i < a.len() ==> !matches_at(s, pat, i)
            },
            None => !contains_text(s, pat),
        },
        match split_last(s, pat) {
            Some((a, b)) => {
                &&& a + pat + b == s
                &&& forall|i: int| a.len() < i ==> !matches_at(s, pat, i)
            },
            None => !contains_text(s, pat),
        },
{
    lemma_find(s, pat);
    lemma_rfind(s, pat);
    if let Some((a, b)) = split_first(s, pat) {
        assert(a + pat + b =~= s);
    }
    if let Some((a, b)) = split_last(s, pat) {
        assert(a + pat + b =~= s);
    }
}

/// A text holds what stands between any two parts of it, and where it holds a pattern it
/// is made of what stands before, the pattern, and what stands behind.
pub proof fn law_texts_hold_their_parts(a: Seq<char>, pat: Seq<char>, b: Seq<char>)
    ensures
        contains_text(a + pat + b, pat),
        contains_text(a + pat, pat),
        contains_text(pat + b, pat),
        contains_text(b, pat) ==> exists|x: Seq<char>, y: Seq<char>| b == #[trigger] ((x + pat) + y),
{
    let n = a.len() as int;
    assert((a + pat + b).subrange(n, n + pat.len()) =~= pat);
    assert(matches_at(a + pat + b, pat, n));
    assert((a + pat).subrange(n, n + pat.len()) =~= pat);
    assert(matches_at(a + pat, pat, n));
    assert((pat + b).subrange(0, pat.len() as int) =~= pat);
    assert(matches_at(pat + b, pat, 0));
    if contains_text(b, pat) {
        let i = choose|i: int| matches_at(b, pat, i);
        let x = b.take(i);
        let y = b.skip(i + pat.len());
        assert(b =~= (x + pat) + y);
    }
}

/// What a text holds it still holds when more is put behind it.
pub proof fn lemma_still_held(s: Seq<char>, t: Seq<char>, pat: Seq<char>)
    requires
        contains_text(s, pat),
    ensures
        contains_text(s + t, pat),
{
    let i = choose|i: int| matches_at(s, pat, i);
    assert((s + t).subrange(i, i + pat.len()) =~= s.subrange(i, i + pat.len()));
    assert(matches_at(s + t, pat, i));
}

/// A text that tells some things tells them still, and one thing more, when a label and its
/// value are put behind it.
pub proof fn lemma_told(s: Seq<char>, told: Seq<Seq<char>>, label: Seq<char>, value: Seq<char>) -> (r:
    Seq<Seq<char>>)
    requires
        forall|i: int| 0 <= i < told.len() ==> contains_text(s, #[trigger] told[i]),
    ensures
        r == told.push(label + value),
        forall|i: int|
            0 <= i < r.len() ==> contains_text(s + label + value, #[trigger] r[i]),
{
    let r = told.push(label + value);
    let more = label + value;
    let whole = s + label + value;
    assert(whole =~= s + more);
    let n = s.len() as int;
    assert(whole.subrange(n, n + more.len()) =~= more);
    assert(matches_at(whole, more, n));
    assert forall|i: int| 0 <= i < r.len() implies contains_text(whole, #[trigger] r[i]) by {
        if i < told.len() {
            assert(r[i] == told[i]);
            lemma_still_held(s, more, told[i]);
        } else {
            assert(r[i] == more);
        }
    }
    r
}

/// A pattern whose first character is not in it again is found where it first stands, and
/// parts the text there.
pub proof fn lemma_first_found(before: Seq<char>, pat: Seq<char>, tail: Seq<char>)
    requires
        pat.len() > 0,
        forall|i: int| 1 <= i < pat.len() ==> #[trigger] pat[i] != pat[0],
        !contains_text(before, pat),
    ensures
        split_first(before + pat + tail, pat) == Some((before, tail)),
{
    let s = before + pat + tail;
    let n = before.len() as int;
    assert(s.subrange(n, n + pat.len()) =~= pat);
    assert(matches_at(s, pat, n));
    lemma_find(s, pat);
    let k = find(s, pat)->0;
    if k < n {
        let found = s.subrange(k, k + pat.len());
        if k + pat.len() <= n {
            assert(before.subrange(k, k + pat.len()) =~= found);
            assert(matches_at(before, pat, k));
        } else {
            assert(found[n - k] == s[n]);
            assert(s[n] == pat[0]);
            assert(pat[n - k] == pat[0]);
        }
    }
    assert(s.take(n) =~= before);
    assert(s.skip(n + pat.len()) =~= tail);
}

/// A pattern is found behind a text in which it does not begin earlier.
pub proof fn lemma_found_behind(before: Seq<char>, pat: Seq<char>, tail: Seq<char>)
    requires
        pat.len() > 0,
        !contains_text(before + pat.drop_last(), pat),
    ensures
        find(before + pat + tail, pat) == Some(before.len() as int),
{
    let s = before + pat + tail;
    let n = before.len() as int;
    assert(s.subrange(n, n + pat.len()) =~= pat);
    assert(matches_at(s, pat, n));
    lemma_find(s, pat);
    let k = find(s, pat)->0;
    if k < n {
        let near = before + pat.drop_last();
        assert(near.subrange(k, k + pat.len()) =~= s.subrange(k, k + pat.len()));
        assert(matches_at(near, pat, k));
    }
}

} // verus!
