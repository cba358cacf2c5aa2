//! How many bytes a text takes, and where it can be cut.

use vstd::prelude::*;
use vstd::slice::slice_subrange;
use vstd::utf8::{char_is_scalar, encode_utf8};
use crate::number::{decimal, u64_text};
use crate::text::{chars, string};

verus! {

/// How many bytes a character takes in UTF-8.
pub open spec fn char_bytes(c: char) -> nat {
    let n = c as u32;
    if n < 0x80 {
        1
    } else if n < 0x800 {
        2
    } else if n < 0x10000 {
        3
    } else {
        4
    }
}

/// How many bytes a text takes in UTF-8.
pub open spec fn byte_len(s: Seq<char>) -> nat
    decreases s.len(),
{
    if s.len() == 0 {
        0
    } else {
        byte_len(s.drop_last()) + char_bytes(s.last())
    }
}

/// The number of characters that take so many bytes, where a character ends there.
pub open spec fn boundary(s: Seq<char>, bytes: nat) -> Option<nat>
    decreases s.len(),
{
    if byte_len(s) == bytes {
        Some(s.len())
    } else if s.len() == 0 {
        None
    } else {
        boundary(s.drop_last(), bytes)
    }
}

/// The first characters of a text that take so many bytes.
pub open spec fn byte_prefix(s: Seq<char>, bytes: nat) -> Seq<char> {
    match boundary(s, bytes) {
        Some(k) => s.take(k as int),
        None => s,
    }
}

/// The last characters of a text, from so many bytes on.
pub open spec fn byte_suffix(s: Seq<char>, bytes: nat) -> Seq<char> {
    match boundary(s, bytes) {
        Some(k) => s.skip(k as int),
        None => s,
    }
}

/// A boundary is where the characters before it take so many bytes.
pub proof fn lemma_boundary(s: Seq<char>, bytes: nat)
    ensures
        match boundary(s, bytes) {
            Some(k) => k <= s.len() && byte_len(s.take(k as int)) == bytes,
            None => forall|k: int| 0 <= k <= s.len() ==> byte_len(#[trigger] s.take(k)) != bytes,
        },
    decreases s.len(),
{
    if byte_len(s) == bytes {
        assert(s.take(s.len() as int) =~= s);
    } else if s.len() == 0 {
        assert forall|k: int| 0 <= k <= s.len() implies byte_len(#[trigger] s.take(k)) != bytes by {
            assert(s.take(k) =~= s);
        }
    } else {
        let front = s.drop_last();
        lemma_boundary(front, bytes);
        match boundary(front, bytes) {
            Some(k) => {
                assert(front.take(k as int) =~= s.take(k as int));
            },
            None => {
                assert forall|k: int| 0 <= k <= s.len() implies byte_len(#[trigger] s.take(k))
                    != bytes by {
                    if k == s.len() {
                        assert(s.take(k) =~= s);
                    } else {
                        assert(front.take(k) =~= s.take(k));
                    }
                }
            },
        }
    }
}

proof fn lemma_byte_len_grows(s: Seq<char>, i: int, j: int)
    requires
        0 <= i < j <= s.len(),
    ensures
        byte_len(s.take(i)) < byte_len(s.take(j)),
    decreases j - i,
{
    assert(s.take(j).drop_last() =~= s.take(j - 1));
    if i < j - 1 {
        lemma_byte_len_grows(s, i, j - 1);
    }
}

proof fn lemma_boundary_is(s: Seq<char>, bytes: nat, k: int)
    requires
        0 <= k <= s.len(),
        byte_len(s.take(k)) == bytes,
    ensures
        boundary(s, bytes) == Some(k as nat),
{
    lemma_boundary(s, bytes);
    let found = boundary(s, bytes)->0 as int;
    if found < k {
        lemma_byte_len_grows(s, found, k);
    } else if k < found {
        lemma_byte_len_grows(s, k, found);
    }
}

fn count_bytes(c: char) -> (r: usize)
    ensures
        r == char_bytes(c),
{
    let n: u32 = c as u32;
    if n < 0x80 {
        1
    } else if n < 0x800 {
        2
    } else if n < 0x10000 {
        3
    } else {
        4
    }
}

proof fn lemma_byte_len_concat(a: Seq<char>, b: Seq<char>)
    ensures
        byte_len(a + b) == byte_len(a) + byte_len(b),
    decreases b.len(),
{
    if b.len() == 0 {
        assert(a + b =~= a);
    } else {
        assert((a + b).drop_last() =~= a + b.drop_last());
        lemma_byte_len_concat(a, b.drop_last());
    }
}

/// The bytes of a text are those of its encoding.
pub proof fn lemma_byte_len_is_encoded(s: Seq<char>)
    ensures
        byte_len(s) == encode_utf8(s).len(),
    decreases s.len(),
{
    if s.len() > 0 {
        let first = seq![s[0]];
        let rest = s.drop_first();
        lemma_byte_len_is_encoded(rest);
        assert(s =~= first + rest);
        lemma_byte_len_concat(first, rest);
        assert(first.drop_last() =~= seq![]);
        assert(byte_len(first.drop_last()) == 0);
        assert(byte_len(first) == char_bytes(s[0]));
        char_is_scalar(s[0]);
    }
}

/// How many bytes a text takes.
pub fn length_in_bytes(s: &str) -> (r: usize)
    ensures
        r == byte_len(s@),
{
    proof {
        lemma_byte_len_is_encoded(s@);
    }
    s.as_bytes().len()
}

/// The number of characters that take so many bytes, where a character ends there.
pub fn find_boundary(s: &[char], bytes: usize) -> (r: Option<usize>)
    ensures
        match r {
            Some(k) => k <= s@.len() && boundary(s@, bytes as nat) == Some(k as nat),
            None => boundary(s@, bytes as nat) is None,
        },
{
    let mut left: usize = bytes;
    let mut i: usize = 0;
    assert(s@.take(0) =~= seq![]);
    while i < s.len() && left > 0
        invariant
            i <= s@.len(),
            left <= bytes,
            byte_len(s@.take(i as int)) + left == bytes,
        decreases s@.len() - i,
    {
        assert(s@.take(i + 1).drop_last() =~= s@.take(i as int));
        let n: usize = count_bytes(s[i]);
        if n > left {
            proof {
                lemma_boundary(s@, bytes as nat);
                if let Some(k) = boundary(s@, bytes as nat) {
                    if k <= i {
                        if k < i {
                            lemma_byte_len_grows(s@, k as int, i as int);
                        }
                    } else if k > i + 1 {
                        lemma_byte_len_grows(s@, i + 1, k as int);
                    }
                }
            }
            return None;
        }
        left = left - n;
        i = i + 1;
    }
    if left == 0 {
        proof {
            lemma_boundary_is(s@, bytes as nat, i as int);
        }
        return Some(i);
    }
    proof {
        lemma_boundary(s@, bytes as nat);
        if let Some(k) = boundary(s@, bytes as nat) {
            if k < s@.len() {
                lemma_byte_len_grows(s@, k as int, s@.len() as int);
            }
        }
    }
    None
}

/// How many bytes of a log are kept.
pub const LOG_LIMIT: usize = 8000;

/// A log that is short enough, or that can be cut at the limit.
pub open spec fn log_fits(s: Seq<char>) -> bool {
    byte_len(s) <= LOG_LIMIT || boundary(s, LOG_LIMIT as nat) is Some
}

/// A log cut at the limit, with a note of how long it was.
pub open spec fn shortened(s: Seq<char>) -> Seq<char> {
    if byte_len(s) > LOG_LIMIT {
        byte_prefix(s, LOG_LIMIT as nat) + "...\n[ truncated, total "@ + decimal(byte_len(s) as int)
            + " chars ]"@
    } else {
        s
    }
}

/// Tells whether a log is short enough or can be cut at the limit.
pub fn can_shorten(log: &str) -> (r: bool)
    ensures
        r == log_fits(log@),
{
    let all = chars(log);
    length_in_bytes(log) <= LOG_LIMIT || find_boundary(all.as_slice(), LOG_LIMIT).is_some()
}

/// Cuts a log at the limit.
pub fn shorten(log: &str) -> (r: String)
    requires
        log_fits(log@),
    ensures
        r@ == shortened(log@),
{
    let all = chars(log);
    let n: usize = length_in_bytes(log);
    if n > LOG_LIMIT {
        let k: usize = match find_boundary(all.as_slice(), LOG_LIMIT) {
            Some(k) => k,
            None => 0,
        };
        let front = slice_subrange(all.as_slice(), 0, k);
        assert(front@ =~= byte_prefix(log@, LOG_LIMIT as nat));
        let mut out = string(front);
        out.append("...\n[ truncated, total ");
        out.append(u64_text(n as u64).as_str());
        out.append(" chars ]");
        out
    } else {
        log.to_string()
    }
}

/// How many bytes of what a terminal printed are kept.
pub const OUTPUT_LIMIT: usize = 120000;

/// Where the kept part of an output begins, in bytes.
pub open spec fn kept_from(s: Seq<char>) -> nat {
    if byte_len(s) > OUTPUT_LIMIT {
        (byte_len(s) - OUTPUT_LIMIT) as nat
    } else {
        0
    }
}

/// The last part of an output, within the limit.
pub open spec fn kept_output(s: Seq<char>) -> Seq<char> {
    byte_suffix(s, kept_from(s))
}

/// An output that is short enough, or that can be cut where the kept part begins.
pub open spec fn output_fits(s: Seq<char>) -> bool {
    boundary(s, kept_from(s)) is Some
}

/// Tells whether an output is short enough or can be cut where the kept part begins.
pub fn can_keep(output: &str) -> (r: bool)
    ensures
        r == output_fits(output@),
{
    let all = chars(output);
    let n: usize = length_in_bytes(output);
    let from: usize = if n > OUTPUT_LIMIT {
        n - OUTPUT_LIMIT
    } else {
        0
    };
    find_boundary(all.as_slice(), from).is_some()
}

/// Puts new output behind the old, and keeps the last part of it.
pub fn keep_output(output: &mut String, data: &str)
    requires
        output_fits(old(output)@ + data@),
    ensures
        final(output)@ == kept_output(old(output)@ + data@),
{
    output.append(data);
    let all = chars(output.as_str());
    let n: usize = length_in_bytes(output.as_str());
    if n > OUTPUT_LIMIT {
        if let Some(k) = find_boundary(all.as_slice(), n - OUTPUT_LIMIT) {
            let back = slice_subrange(all.as_slice(), k, all.len());
            assert(back@ =~= kept_output(all@));
            *output = string(back);
        }
    } else {
        proof {
            assert(all@.take(0) =~= seq![]);
            lemma_boundary_is(all@, 0, 0);
            assert(all@.skip(0) =~= all@);
        }
    }
}

/// What is kept of an output never takes more bytes than the limit, and it is the end
/// of the output; what fits is kept whole.
pub proof fn law_kept_output_is_bounded(s: Seq<char>)
    requires
        output_fits(s),
    ensures
        byte_len(kept_output(s)) <= OUTPUT_LIMIT,
        kept_output(s) == s.skip(s.len() - kept_output(s).len()),
        byte_len(s) <= OUTPUT_LIMIT ==> kept_output(s) == s,
{
    lemma_boundary(s, kept_from(s));
    let k = boundary(s, kept_from(s))->0 as int;
    assert(s =~= s.take(k) + s.skip(k));
    lemma_byte_len_concat(s.take(k), s.skip(k));
    if byte_len(s) <= OUTPUT_LIMIT {
        assert(s.take(0) =~= seq![]);
        lemma_boundary_is(s, 0, 0);
        assert(s.skip(0) =~= s);
    }
}

/// A log up to the limit is kept as it is; of a longer one the bytes up to the limit are
/// kept, and how long it was is told behind them.
pub proof fn law_long_logs_keep_their_beginning(s: Seq<char>)
    requires
        log_fits(s),
    ensures
        byte_len(s) <= 8000 ==> shortened(s) == s,
        byte_len(s) > 8000 ==> exists|k: int|
            {
                &&& 0 <= k < s.len()
                &&& byte_len(#[trigger] s.take(k)) == 8000
                &&& shortened(s).len() > k
                &&& shortened(s).take(k) == s.take(k)
                &&& shortened(s).skip(k) == "...\n[ truncated, total "@ + decimal(
                    byte_len(s) as int,
                ) + " chars ]"@
            },
{
    if byte_len(s) > 8000 {
        lemma_boundary(s, 8000);
        let k = boundary(s, 8000)->0 as int;
        let tail = "...\n[ truncated, total "@ + decimal(byte_len(s) as int) + " chars ]"@;
        if k == s.len() {
            assert(s.take(k) =~= s);
        }
        reveal_strlit(" chars ]");
        assert(tail.len() > 0);
        assert(shortened(s) =~= s.take(k) + tail);
        assert(shortened(s).take(k) =~= s.take(k));
        assert(shortened(s).skip(k) =~= tail);
        assert(byte_len(s.take(k)) == 8000);
    }
}

/// Of output past the limit exactly as many bytes are kept as the limit has, the last ones.
pub proof fn law_long_output_fills_the_limit(s: Seq<char>)
    requires
        output_fits(s),
    ensures
        byte_len(s) > 120000 ==> byte_len(kept_output(s)) == 120000,
        byte_len(s) <= 120000 ==> kept_output(s) == s,
        exists|k: int| 0 <= k <= s.len() && kept_output(s) == #[trigger] s.skip(k),
{
    lemma_boundary(s, kept_from(s));
    let k = boundary(s, kept_from(s))->0 as int;
    lemma_byte_len_concat(s.take(k), s.skip(k));
    assert(s.take(k) + s.skip(k) =~= s);
    law_kept_output_is_bounded(s);
}

} // verus!
