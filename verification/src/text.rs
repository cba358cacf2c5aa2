//! Text as a sequence of characters: trimming, searching, splitting and joining.
//!
//! Contracts speak of `Seq<char>`, the view of `str` and `String`. The functions
//! that do the work run over slices of characters; `chars` and `string` lead
//! there and back.

use vstd::prelude::*;
use vstd::slice::slice_subrange;
use vstd::utf8::is_ascii_chars;

verus! {

/// The characters with the Unicode property `White_Space`.
pub open spec fn white(c: char) -> bool {
    let n = c as u32;
    ||| 0x9 <= n <= 0xd
    ||| n == 0x20
    ||| n == 0x85
    ||| n == 0xa0
    ||| n == 0x1680
    ||| 0x2000 <= n <= 0x200a
    ||| n == 0x2028
    ||| n == 0x2029
    ||| n == 0x202f
    ||| n == 0x205f
    ||| n == 0x3000
}

/// `char::is_whitespace` tells whether a character has the property
/// `White_Space`; `white` lists the characters that have it.
pub assume_specification[ char::is_whitespace ](c: char) -> (r: bool)
    ensures
        r == white(c),
;

/// `String::push` puts one character behind the text.
pub assume_specification[ String::push ](s: &mut String, c: char)
    ensures
        final(s)@ == old(s)@.push(c),
;

/// What `str::to_lowercase` makes of a text.
pub uninterp spec fn lowered(s: Seq<char>) -> Seq<char>;

/// An ASCII capital as its small letter, any other character as it is.
pub open spec fn ascii_lower(c: char) -> char {
    if 'A' <= c && c <= 'Z' {
        ((c as u32 + 32) as u32) as char
    } else {
        c
    }
}

/// The text holds no ASCII capital.
pub open spec fn no_capital(s: Seq<char>) -> bool {
    forall|i: int| 0 <= i < s.len() ==> !('A' <= #[trigger] s[i] && s[i] <= 'Z')
}

/// `str::to_lowercase`. The result depends on the text alone and has the name
/// `lowered`; it holds no ASCII capital, and a text of ASCII characters has its
/// capitals replaced one by one.
#[verifier::external_body]
pub(crate) fn lowercase(s: &str) -> (r: String)
    ensures
        r@ == lowered(s@),
        no_capital(r@),
        is_ascii_chars(s@) ==> r@ == s@.map_values(|c: char| ascii_lower(c)),
{
    s.to_lowercase()
}

/// An ASCII capital as its small letter, any other character as it is.
pub fn lower_char(c: char) -> (r: char)
    ensures
        r == ascii_lower(c),
{
    if 'A' <= c && c <= 'Z' {
        (c as u8 + 32) as char
    } else {
        c
    }
}

/// The characters of a text.
pub fn chars(s: &str) -> (r: Vec<char>)
    ensures
        r@ == s@,
{
    let mut out: Vec<char> = Vec::new();
    for c in it: s.chars()
        invariant
            out@ == it.seq().take(it.index() as int),
            it.seq() == s@,
    {
        out.push(c);
    }
    out
}

/// The text made of the given characters.
pub fn string(s: &[char]) -> (r: String)
    ensures
        r@ == s@,
{
    let mut out = String::new();
    let mut i: usize = 0;
    while i < s.len()
        invariant
            i <= s.len(),
            out@ == s@.take(i as int),
        decreases s.len() - i,
    {
        out.push(s[i]);
        i = i + 1;
    }
    assert(s@.take(i as int) == s@);
    out
}

/// Tells whether two texts are equal.
pub fn same(a: &str, b: &str) -> (r: bool)
    ensures
        r == (a@ == b@),
{
    a.to_owned() == b.to_owned()
}

/// Tells whether two texts are the same but for ASCII capitals, as
/// `str::eq_ignore_ascii_case` does.
pub fn same_ignoring_case(a: &str, b: &str) -> (r: bool)
    ensures
        r == (a@.map_values(|c: char| ascii_lower(c)) == b@.map_values(|c: char| ascii_lower(c))),
{
    let p = chars(a);
    let q = chars(b);
    let ghost low_p = a@.map_values(|c: char| ascii_lower(c));
    let ghost low_q = b@.map_values(|c: char| ascii_lower(c));
    if p.len() != q.len() {
        assert(low_p.len() != low_q.len());
        return false;
    }
    let mut i: usize = 0;
    while i < p.len()
        invariant
            i <= p@.len(),
            p@ == a@,
            q@ == b@,
            p@.len() == q@.len(),
            low_p == a@.map_values(|c: char| ascii_lower(c)),
            low_q == b@.map_values(|c: char| ascii_lower(c)),
            forall|k: int| 0 <= k < i ==> #[trigger] low_p[k] == low_q[k],
        decreases p@.len() - i,
    {
        if lower_char(p[i]) != lower_char(q[i]) {
            assert(low_p[i as int] != low_q[i as int]);
            return false;
        }
        i = i + 1;
    }
    assert(low_p =~= low_q);
    true
}

/// The views of a list of texts.
pub open spec fn views(list: Seq<String>) -> Seq<Seq<char>> {
    Seq::new(list.len(), |i: int| list[i]@)
}

pub broadcast proof fn lemma_views_push(list: Seq<String>, s: String)
    ensures
        #[trigger] views(list.push(s)) == views(list).push(s@),
{
    assert(views(list.push(s)) =~= views(list).push(s@));
}

/// The view of a text that may be missing.
pub open spec fn opt_view(o: Option<String>) -> Option<Seq<char>> {
    match o {
        Some(s) => Some(s@),
        None => None,
    }
}

/// A copy of a list of texts.
pub fn clone_list(list: &Vec<String>) -> (r: Vec<String>)
    ensures
        views(r@) == views(list@),
{
    broadcast use lemma_views_push;

    let mut out: Vec<String> = Vec::new();
    let mut i: usize = 0;
    while i < list.len()
        invariant
            i <= list.len(),
            views(out@) == views(list@).take(i as int),
        decreases list.len() - i,
    {
        let item = list[i].clone();
        assert(views(list@).take(i + 1) == views(list@).take(i as int).push(item@));
        out.push(item);
        i = i + 1;
    }
    assert(views(list@).take(i as int) == views(list@));
    out
}

/// Tells whether a text stands in a list.
pub fn listed(list: &Vec<String>, s: &str) -> (r: bool)
    ensures
        r == views(list@).contains(s@),
{
    let mut i: usize = 0;
    while i < list.len()
        invariant
            i <= list.len(),
            forall|j: int| 0 <= j < i ==> views(list@)[j] != s@,
        decreases list.len() - i,
    {
        if same(list[i].as_str(), s) {
            assert(views(list@)[i as int] == s@);
            return true;
        }
        i = i + 1;
    }
    false
}

/// A class of characters.
#[derive(Clone, Copy)]
pub enum CharClass<'a> {
    /// The characters with the property `White_Space`.
    White,
    /// The characters of a text.
    OneOf(&'a str),
}

impl<'a> CharClass<'a> {
    pub open spec fn holds(self, c: char) -> bool {
        match self {
            CharClass::White => white(c),
            CharClass::OneOf(set) => set@.contains(c),
        }
    }

    pub fn has(&self, c: char) -> (r: bool)
        ensures
            r == self.holds(c),
    {
        match *self {
            CharClass::White => c.is_whitespace(),
            CharClass::OneOf(set) => {
                let members: Vec<char> = chars(set);
                let mut i: usize = 0;
                while i < members.len()
                    invariant
                        i <= members.len(),
                        members@ == set@,
                        *self == CharClass::OneOf(set),
                        forall|j: int| 0 <= j < i ==> members@[j] != c,
                    decreases members.len() - i,
                {
                    if members[i] == c {
                        assert(set@[i as int] == c);
                        return true;
                    }
                    i = i + 1;
                }
                false
            },
        }
    }
}

/// The length of the longest prefix whose characters are all inside the class,
/// or all outside it.
pub open spec fn run_len(s: Seq<char>, class: CharClass, inside: bool) -> nat
    decreases s.len(),
{
    if s.len() > 0 && class.holds(s[0]) == inside {
        1 + run_len(s.drop_first(), class, inside)
    } else {
        0
    }
}

/// The length of the longest suffix whose characters are all in the class.
pub open spec fn tail_len(s: Seq<char>, class: CharClass) -> nat
    decreases s.len(),
{
    if s.len() > 0 && class.holds(s.last()) {
        1 + tail_len(s.drop_last(), class)
    } else {
        0
    }
}

pub proof fn lemma_run_len(s: Seq<char>, class: CharClass, inside: bool)
    ensures
        run_len(s, class, inside) <= s.len(),
        forall|i: int|
            0 <= i < run_len(s, class, inside) ==> class.holds(#[trigger] s[i]) == inside,
        run_len(s, class, inside) < s.len() ==> class.holds(
            s[run_len(s, class, inside) as int],
        ) != inside,
    decreases s.len(),
{
    if s.len() > 0 && class.holds(s[0]) == inside {
        let rest = s.drop_first();
        lemma_run_len(rest, class, inside);
        let n = run_len(rest, class, inside);
        assert forall|i: int| 0 <= i < 1 + n implies class.holds(#[trigger] s[i]) == inside by {
            if i > 0 {
                assert(s[i] == rest[i - 1]);
            }
        }
        if 1 + n < s.len() {
            assert(s[1 + n as int] == rest[n as int]);
        }
    }
}

/// The length of the run is fixed by what holds of it.
pub proof fn lemma_run_len_is(s: Seq<char>, class: CharClass, inside: bool, n: nat)
    requires
        n <= s.len(),
        forall|i: int| 0 <= i < n ==> class.holds(#[trigger] s[i]) == inside,
        n < s.len() ==> class.holds(s[n as int]) != inside,
    ensures
        run_len(s, class, inside) == n,
{
    lemma_run_len(s, class, inside);
    let m = run_len(s, class, inside);
    if m < n {
        assert(class.holds(s[m as int]) == inside);
    } else if n < m {
        assert(class.holds(s[n as int]) == inside);
    }
}

pub proof fn lemma_tail_len(s: Seq<char>, class: CharClass)
    ensures
        tail_len(s, class) <= s.len(),
        forall|i: int| s.len() - tail_len(s, class) <= i < s.len() ==> class.holds(#[trigger] s[i]),
        tail_len(s, class) < s.len() ==> !class.holds(s[s.len() - tail_len(s, class) - 1]),
    decreases s.len(),
{
    if s.len() > 0 && class.holds(s.last()) {
        let rest = s.drop_last();
        lemma_tail_len(rest, class);
        let n = tail_len(rest, class);
        assert forall|i: int| s.len() - (1 + n) <= i < s.len() implies class.holds(
            #[trigger] s[i],
        ) by {
            if i < s.len() - 1 {
                assert(s[i] == rest[i]);
            }
        }
    }
}

pub proof fn lemma_tail_len_is(s: Seq<char>, class: CharClass, n: nat)
    requires
        n <= s.len(),
        forall|i: int| s.len() - n <= i < s.len() ==> class.holds(#[trigger] s[i]),
        n < s.len() ==> !class.holds(s[s.len() - n - 1]),
    ensures
        tail_len(s, class) == n,
{
    lemma_tail_len(s, class);
    let m = tail_len(s, class);
    if m < n {
        assert(class.holds(s[s.len() - m - 1]));
    } else if n < m {
        assert(class.holds(s[s.len() - n - 1]));
    }
}

pub fn count_run(s: &[char], class: CharClass, inside: bool) -> (r: usize)
    ensures
        r == run_len(s@, class, inside),
        r <= s@.len(),
{
    let mut i: usize = 0;
    while i < s.len() && class.has(s[i]) == inside
        invariant
            i <= s.len(),
            forall|j: int| 0 <= j < i ==> class.holds(#[trigger] s@[j]) == inside,
        decreases s.len() - i,
    {
        i = i + 1;
    }
    proof {
        lemma_run_len_is(s@, class, inside, i as nat);
    }
    i
}

/// Counts the characters at the end that are in the class.
pub fn count_tail(s: &[char], class: CharClass) -> (r: usize)
    ensures
        r == tail_len(s@, class),
        r <= s@.len(),
{
    let mut i: usize = 0;
    while i < s.len() && class.has(s[s.len() - i - 1])
        invariant
            i <= s.len(),
            forall|j: int| s@.len() - i <= j < s@.len() ==> class.holds(#[trigger] s@[j]),
        decreases s.len() - i,
    {
        i = i + 1;
    }
    proof {
        lemma_tail_len_is(s@, class, i as nat);
    }
    i
}

/// A text without the characters of the class at its start.
pub open spec fn trim_start_of(s: Seq<char>, class: CharClass) -> Seq<char> {
    s.skip(run_len(s, class, true) as int)
}

/// A text without the characters of the class at its end.
pub open spec fn trim_end_of(s: Seq<char>, class: CharClass) -> Seq<char> {
    s.take(s.len() - tail_len(s, class))
}

/// A text without the characters of the class at both ends.
pub open spec fn trim_of(s: Seq<char>, class: CharClass) -> Seq<char> {
    trim_end_of(trim_start_of(s, class), class)
}

/// A text without white space at both ends.
pub open spec fn trimmed(s: Seq<char>) -> Seq<char> {
    trim_of(s, CharClass::White)
}

/// Strips the characters of a class from both ends, as `str::trim_matches` does.
pub fn trim_class<'a>(s: &'a [char], class: CharClass) -> (r: &'a [char])
    ensures
        r@ == trim_of(s@, class),
{
    let n: usize = count_run(s, class, true);
    let head = slice_subrange(s, n, s.len());
    assert(head@ == trim_start_of(s@, class));
    trim_end_class(head, class)
}

/// Strips the characters of a class from the end.
pub fn trim_end_class<'a>(s: &'a [char], class: CharClass) -> (r: &'a [char])
    ensures
        r@ == trim_end_of(s@, class),
{
    let m: usize = count_tail(s, class);
    slice_subrange(s, 0, s.len() - m)
}

/// Strips white space from both ends, as `str::trim` does.
pub fn trim<'a>(s: &'a [char]) -> (r: &'a [char])
    ensures
        r@ == trimmed(s@),
{
    trim_class(s, CharClass::White)
}

/// `trim` from text to text.
pub fn trim_str(s: &str) -> (r: String)
    ensures
        r@ == trimmed(s@),
{
    let all = chars(s);
    string(trim(all.as_slice()))
}

/// Tells whether a text is white space throughout.
pub fn is_blank(s: &str) -> (r: bool)
    ensures
        r == (trimmed(s@).len() == 0),
{
    let all = chars(s);
    trim(all.as_slice()).len() == 0
}

/// A trimmed text is a piece of the text whose ends lie outside the class.
pub proof fn lemma_trim_of(s: Seq<char>, class: CharClass)
    ensures
        ({
            let t = trim_of(s, class);
            let a = run_len(s, class, true) as int;
            &&& 0 <= a <= a + t.len() <= s.len()
            &&& t == s.subrange(a, a + t.len())
            &&& t.len() > 0 ==> !class.holds(t[0]) && !class.holds(t.last())
            &&& forall|i: int| 0 <= i < a ==> class.holds(#[trigger] s[i])
            &&& forall|i: int| a + t.len() <= i < s.len() ==> class.holds(#[trigger] s[i])
        }),
{
    lemma_run_len(s, class, true);
    let h = trim_start_of(s, class);
    lemma_tail_len(h, class);
    let a = run_len(s, class, true) as int;
    let t = trim_of(s, class);
    assert(t =~= s.subrange(a, a + t.len()));
    assert forall|i: int| a + t.len() <= i < s.len() implies class.holds(#[trigger] s[i]) by {
        assert(s[i] == h[i - a]);
    }
    if t.len() > 0 {
        assert(t[0] == s[a]);
        assert(t.last() == h[h.len() - tail_len(h, class) - 1]);
    }
}

/// A text whose ends lie outside the class stays as it is.
pub proof fn lemma_trim_of_fixed(s: Seq<char>, class: CharClass)
    requires
        s.len() > 0 ==> !class.holds(s[0]) && !class.holds(s.last()),
    ensures
        trim_of(s, class) == s,
{
    lemma_run_len_is(s, class, true, 0);
    assert(trim_start_of(s, class) =~= s);
    lemma_tail_len_is(s, class, 0);
    assert(trim_of(s, class) =~= s);
}

/// Trimming twice does no more than trimming once.
pub proof fn lemma_trim_of_twice(s: Seq<char>, class: CharClass)
    ensures
        trim_of(trim_of(s, class), class) == trim_of(s, class),
{
    lemma_trim_of(s, class);
    lemma_trim_of_fixed(trim_of(s, class), class);
}

/// Capital letters of ASCII become the small ones, and nothing else changes.
pub proof fn law_capital_letters_become_small(c: char)
    ensures
        'A' <= c && c <= 'Z' ==> ascii_lower(c) as u32 == c as u32 + 32 && 'a' <= ascii_lower(c)
            && ascii_lower(c) <= 'z',
        !('A' <= c && c <= 'Z') ==> ascii_lower(c) == c,
        ascii_lower(ascii_lower(c)) == ascii_lower(c),
{
}

/// Trimming takes the white space at both ends, and nothing else.
pub proof fn law_trimming_takes_white_space_only(a: Seq<char>, s: Seq<char>, b: Seq<char>)
    requires
        forall|i: int| 0 <= i < a.len() ==> white(#[trigger] a[i]),
        forall|i: int| 0 <= i < b.len() ==> white(#[trigger] b[i]),
        s.len() > 0 ==> !white(s[0]) && !white(s.last()),
    ensures
        trimmed(a + s + b) == s,
{
    let whole = a + s + b;
    let class = CharClass::White;
    if s.len() == 0 {
        assert forall|i: int| 0 <= i < whole.len() implies class.holds(#[trigger] whole[i]) by {
            if i < a.len() {
                assert(whole[i] == a[i]);
            } else {
                assert(whole[i] == b[i - a.len()]);
            }
        }
        lemma_run_len_is(whole, class, true, whole.len());
        let rest = whole.skip(whole.len() as int);
        assert(rest.len() == 0);
        lemma_tail_len_is(rest, class, 0);
        assert(trimmed(whole) =~= s);
    } else {
        assert forall|i: int| 0 <= i < a.len() implies class.holds(#[trigger] whole[i]) by {
            assert(whole[i] == a[i]);
        }
        assert(whole[a.len() as int] == s[0]);
        lemma_run_len_is(whole, class, true, a.len());
        let head = whole.skip(a.len() as int);
        assert(head =~= s + b);
        assert forall|i: int| head.len() - b.len() <= i < head.len() implies class.holds(
            #[trigger] head[i],
        ) by {
            assert(head[i] == b[i - s.len()]);
        }
        assert(head[s.len() - 1] == s.last());
        lemma_tail_len_is(head, class, b.len());
        assert(head.take(head.len() - b.len()) =~= s);
    }
}

} // verus!
