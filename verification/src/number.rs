//! Whole numbers as decimal text.

use vstd::prelude::*;
use vstd::slice::slice_subrange;

verus! {

/// The digit for a number below ten.
pub open spec fn digit(n: nat) -> char {
    ((n + 48) as u32) as char
}

/// A natural number in decimal digits, without leading zeros.
pub open spec fn decimal_nat(n: nat) -> Seq<char>
    decreases n,
{
    if n < 10 {
        seq![digit(n)]
    } else {
        decimal_nat(n / 10).push(digit(n % 10))
    }
}

/// A whole number in decimal digits, with a minus sign where it is negative.
pub open spec fn decimal(n: int) -> Seq<char> {
    if n < 0 {
        seq!['-'] + decimal_nat((-n) as nat)
    } else {
        decimal_nat(n as nat)
    }
}

/// A whole number that takes two places at least, filled up with a zero.
pub open spec fn two_places(n: int) -> Seq<char> {
    if 0 <= n < 10 {
        seq!['0'] + decimal(n)
    } else {
        decimal(n)
    }
}

/// A natural number that takes four places at least, filled up with zeros.
pub open spec fn four_places(n: nat) -> Seq<char> {
    if n < 10 {
        seq!['0', '0', '0'] + decimal_nat(n)
    } else if n < 100 {
        seq!['0', '0'] + decimal_nat(n)
    } else if n < 1000 {
        seq!['0'] + decimal_nat(n)
    } else {
        decimal_nat(n)
    }
}

fn put_decimal(n: u128, out: &mut String)
    ensures
        final(out)@ == old(out)@ + decimal_nat(n as nat),
    decreases n,
{
    if n >= 10 {
        put_decimal(n / 10, out);
    }
    let c = (48u8 + (n % 10) as u8) as char;
    out.push(c);
    assert(out@ =~= old(out)@ + decimal_nat(n as nat));
}

/// A natural number as text.
pub fn u64_text(n: u64) -> (r: String)
    ensures
        r@ == decimal(n as int),
{
    u128_text(n as u128)
}

/// A natural number as text.
pub fn u128_text(n: u128) -> (r: String)
    ensures
        r@ == decimal(n as int),
{
    let mut out = String::new();
    put_decimal(n, &mut out);
    assert(out@ =~= decimal(n as int));
    out
}

/// A whole number as text.
pub fn i64_text(n: i64) -> (r: String)
    ensures
        r@ == decimal(n as int),
{
    if n >= 0 {
        return u64_text(n as u64);
    }
    let size: u128 = if n == i64::MIN {
        0x8000_0000_0000_0000
    } else {
        (-n) as u128
    };
    let mut out = String::new();
    out.push('-');
    put_decimal(size, &mut out);
    assert(out@ =~= decimal(n as int));
    out
}

/// A whole number as text of two places at least.
pub fn two_places_text(n: i64) -> (r: String)
    ensures
        r@ == two_places(n as int),
{
    let digits = i64_text(n);
    if 0 <= n && n < 10 {
        let mut out = String::new();
        out.push('0');
        out.append(digits.as_str());
        assert(out@ =~= two_places(n as int));
        out
    } else {
        digits
    }
}

/// The characters `0` to `9`.
pub open spec fn is_digit(c: char) -> bool {
    '0' <= c && c <= '9'
}

/// The number that a row of digits stands for.
pub open spec fn digits_value(s: Seq<char>) -> nat
    decreases s.len(),
{
    if s.len() == 0 {
        0
    } else {
        digits_value(s.drop_last()) * 10 + ((s.last() as u32 - 48) as nat)
    }
}

/// The text is a row of one or more digits.
pub open spec fn all_digits(s: Seq<char>) -> bool {
    s.len() > 0 && forall|i: int| 0 <= i < s.len() ==> is_digit(#[trigger] s[i])
}

/// The number up to `max` that a row of digits stands for.
pub open spec fn parsed_digits(s: Seq<char>, max: nat) -> Option<nat> {
    if all_digits(s) && digits_value(s) <= max {
        Some(digits_value(s))
    } else {
        None
    }
}

/// What the text of a natural number up to `max` stands for; a plus sign may
/// stand before the digits.
pub open spec fn parsed_nat(s: Seq<char>, max: nat) -> Option<nat> {
    if s.len() > 0 && s[0] == '+' {
        parsed_digits(s.skip(1), max)
    } else {
        parsed_digits(s, max)
    }
}

/// What the text of a 32-bit whole number stands for; a sign may stand before
/// the digits.
pub open spec fn parsed_i32(s: Seq<char>) -> Option<int> {
    if s.len() > 0 && s[0] == '-' {
        match parsed_digits(s.skip(1), 0x8000_0000) {
            Some(n) => Some(-(n as int)),
            None => None,
        }
    } else {
        match parsed_nat(s, 0x7fff_ffff) {
            Some(n) => Some(n as int),
            None => None,
        }
    }
}

proof fn lemma_digits_value_grows(s: Seq<char>, k: int)
    requires
        0 <= k <= s.len(),
        forall|i: int| 0 <= i < s.len() ==> is_digit(#[trigger] s[i]),
    ensures
        digits_value(s.take(k)) <= digits_value(s),
    decreases s.len(),
{
    if k == s.len() {
        assert(s.take(k) =~= s);
    } else {
        let init = s.drop_last();
        assert forall|i: int| 0 <= i < init.len() implies is_digit(#[trigger] init[i]) by {
            assert(init[i] == s[i]);
        }
        lemma_digits_value_grows(init, k);
        assert(init.take(k) =~= s.take(k));
        assert(is_digit(s[s.len() - 1]));
    }
}

fn parse_digits(s: &[char], max: u64) -> (r: Option<u64>)
    ensures
        match r {
            Some(n) => parsed_digits(s@, max as nat) == Some(n as nat),
            None => parsed_digits(s@, max as nat) is None,
        },
        r is Some ==> r->0 <= max,
{
    if s.len() == 0 {
        return None;
    }
    let mut value: u64 = 0;
    let mut fits: bool = true;
    let mut i: usize = 0;
    while i < s.len()
        invariant
            i <= s.len(),
            forall|j: int| 0 <= j < i ==> is_digit(#[trigger] s@[j]),
            fits ==> value == digits_value(s@.take(i as int)) && value <= max,
            !fits ==> exists|k: int| 0 <= k <= i && digits_value(#[trigger] s@.take(k)) > max,
        decreases s.len() - i,
    {
        let c = s[i];
        if !('0' <= c && c <= '9') {
            assert(!is_digit(s@[i as int]));
            return None;
        }
        let d: u64 = (c as u32 - 48) as u64;
        proof {
            let upto = s@.take(i + 1);
            assert(upto.drop_last() =~= s@.take(i as int));
            assert(upto.last() == c);
        }
        if fits {
            if value <= max / 10 && value * 10 <= max && d <= max - value * 10 {
                value = value * 10 + d;
            } else {
                assert(digits_value(s@.take(i + 1)) > max);
                fits = false;
            }
        }
        i = i + 1;
    }
    assert(s@.take(i as int) =~= s@);
    if fits {
        Some(value)
    } else {
        proof {
            let k = choose|k: int| 0 <= k <= i && digits_value(#[trigger] s@.take(k)) > max;
            lemma_digits_value_grows(s@, k);
        }
        None
    }
}

/// Reads a natural number, as `str::parse` does for the unsigned types.
pub fn parse_nat(s: &[char], max: u64) -> (r: Option<u64>)
    ensures
        match r {
            Some(n) => parsed_nat(s@, max as nat) == Some(n as nat),
            None => parsed_nat(s@, max as nat) is None,
        },
        r is Some ==> r->0 <= max,
{
    if s.len() > 0 && s[0] == '+' {
        let rest = slice_subrange(s, 1, s.len());
        assert(rest@ =~= s@.skip(1));
        parse_digits(rest, max)
    } else {
        parse_digits(s, max)
    }
}

/// Reads a 32-bit whole number, as `str::parse` does.
pub fn parse_i32(s: &[char]) -> (r: Option<i32>)
    ensures
        match r {
            Some(n) => parsed_i32(s@) == Some(n as int),
            None => parsed_i32(s@) is None,
        },
{
    if s.len() > 0 && s[0] == '-' {
        let rest = slice_subrange(s, 1, s.len());
        assert(rest@ =~= s@.skip(1));
        match parse_digits(rest, 0x8000_0000) {
            Some(n) => Some((-(n as i64)) as i32),
            None => None,
        }
    } else {
        match parse_nat(s, 0x7fff_ffff) {
            Some(n) => Some(n as i32),
            None => None,
        }
    }
}

/// Reading the decimal text of a number gives the number back.
pub proof fn law_decimal_reads_back(n: nat, max: nat)
    requires
        n <= max,
    ensures
        parsed_nat(decimal_nat(n), max) == Some(n),
{
    lemma_decimal_digits(n);
    assert(is_digit(decimal_nat(n)[0]));
}

/// A zero before digits changes nothing of their number.
proof fn lemma_zero_before(s: Seq<char>)
    requires
        all_digits(s),
    ensures
        all_digits(seq!['0'] + s),
        digits_value(seq!['0'] + s) == digits_value(s),
    decreases s.len(),
{
    let t = seq!['0'] + s;
    assert forall|i: int| 0 <= i < t.len() implies is_digit(#[trigger] t[i]) by {
        if i > 0 {
            assert(t[i] == s[i - 1]);
        }
    }
    let init = s.drop_last();
    assert(t.drop_last() =~= seq!['0'] + init);
    if init.len() == 0 {
        assert(t.drop_last().drop_last() =~= seq![]);
        assert(digits_value(t.drop_last().drop_last()) == 0);
        assert(digits_value(t.drop_last()) == 0);
        assert(digits_value(init) == 0);
    } else {
        assert forall|i: int| 0 <= i < init.len() implies is_digit(#[trigger] init[i]) by {
            assert(init[i] == s[i]);
        }
        lemma_zero_before(init);
    }
}

/// A number in two places: two digits, which stand for it.
pub proof fn lemma_two_places(n: int)
    requires
        0 <= n < 100,
    ensures
        two_places(n).len() == 2,
        all_digits(two_places(n)),
        digits_value(two_places(n)) == n,
{
    reveal_with_fuel(decimal_nat, 2);
    lemma_decimal_digits(n as nat);
    if n < 10 {
        lemma_zero_before(decimal_nat(n as nat));
    }
}

/// A number in four places: digits, which stand for it.
pub proof fn lemma_four_places(n: nat)
    ensures
        all_digits(four_places(n)),
        digits_value(four_places(n)) == n,
{
    let s = decimal_nat(n);
    lemma_decimal_digits(n);
    lemma_zero_before(s);
    lemma_zero_before(seq!['0'] + s);
    lemma_zero_before(seq!['0'] + (seq!['0'] + s));
    assert(seq!['0'] + (seq!['0'] + s) =~= seq!['0', '0'] + s);
    assert(seq!['0'] + (seq!['0', '0'] + s) =~= seq!['0', '0', '0'] + s);
}

proof fn lemma_decimal_digits(n: nat)
    ensures
        all_digits(decimal_nat(n)),
        digits_value(decimal_nat(n)) == n,
    decreases n,
{
    let s = decimal_nat(n);
    if n < 10 {
        assert(s.drop_last() =~= seq![]);
        assert(digits_value(s.drop_last()) == 0);
    } else {
        lemma_decimal_digits(n / 10);
        assert(s.drop_last() =~= decimal_nat(n / 10));
        assert forall|i: int| 0 <= i < s.len() implies is_digit(#[trigger] s[i]) by {
            if i < s.len() - 1 {
                assert(s[i] == decimal_nat(n / 10)[i]);
            }
        }
    }
}

/// Reading the text of a 32-bit number gives the number back, whatever its sign.
pub proof fn law_small_numbers_read_back(n: int)
    requires
        i32::MIN <= n <= i32::MAX,
    ensures
        parsed_i32(decimal(n)) == Some(n),
{
    let size: nat = if n < 0 {
        (-n) as nat
    } else {
        n as nat
    };
    lemma_decimal_digits(size);
    assert(is_digit(decimal_nat(size)[0]));
    if n < 0 {
        assert(decimal(n).skip(1) =~= decimal_nat(size));
    } else {
        law_decimal_reads_back(size, 0x7fff_ffff);
    }
}

/// A text that is no row of digits is no number, and a number past the largest one is not
/// read.
pub proof fn law_only_digits_are_numbers(s: Seq<char>, max: nat, k: int)
    ensures
        0 <= k < s.len() && !is_digit(s[k]) && !(k == 0 && s[k] == '+') ==> parsed_nat(s, max)
            is None,
        s.len() == 0 ==> parsed_nat(s, max) is None,
        parsed_nat(s, max) matches Some(n) ==> n <= max,
{
    if 0 <= k < s.len() && !is_digit(s[k]) && !(k == 0 && s[k] == '+') {
        if s[0] == '+' {
            assert(s.skip(1)[k - 1] == s[k]);
        }
    }
}

} // verus!
