//! Taking passwords and keys out of what is logged or shown.

use vstd::prelude::*;
use crate::request::{wording, Wording};
use crate::search::{contains_text, ends, ends_with, is_text};
use crate::split::{
    is_piece, join, joined, lemma_pieces, lemma_pieces_joined, slice_views, split_words, words,
};
use crate::text::{chars, lemma_views_push, lowered, same, string, views, CharClass};

verus! {

/// What stands in place of a word that is not shown.
pub const HIDDEN: &'static str = "***";

/// A word that speaks of a password.
pub open spec fn secret_word(text: Seq<char>, lower: Seq<char>) -> bool {
    ||| contains_text(text, "密码"@)
    ||| contains_text(lower, "password"@)
    ||| contains_text(lower, "passwd"@)
    ||| contains_text(lower, "pwd"@)
}

/// A word after which the password itself is expected.
pub open spec fn announces_secret(text: Seq<char>) -> bool {
    ||| ends(text, "是"@)
    ||| ends(text, ":"@)
    ||| ends(text, "："@)
    ||| text == "密码"@
}

/// Words, each with itself in small letters, without the secret ones. The first is
/// hidden too where the word before it has announced it.
pub open spec fn redacted_words(list: Seq<(Seq<char>, Seq<char>)>, cover: bool) -> Seq<Seq<char>>
    decreases list.len(),
{
    if list.len() == 0 {
        seq![]
    } else {
        let (text, lower) = list[0];
        let rest = list.drop_first();
        if cover {
            seq![HIDDEN@] + redacted_words(rest, false)
        } else if secret_word(text, lower) {
            seq![HIDDEN@] + redacted_words(rest, announces_secret(text))
        } else {
            seq![text] + redacted_words(rest, false)
        }
    }
}

/// Words, each with itself in small letters.
pub open spec fn with_lower(list: Seq<Seq<char>>) -> Seq<(Seq<char>, Seq<char>)> {
    list.map_values(|w: Seq<char>| (w, lowered(w)))
}

/// The texts of a list of wordings, each with itself in small letters.
pub open spec fn wording_views(list: Seq<Wording>) -> Seq<(Seq<char>, Seq<char>)> {
    list.map_values(|w: Wording| (w.text@, w.lower@))
}

/// A text with its secret words hidden and one space between words.
pub open spec fn redacted(s: Seq<char>) -> Seq<char> {
    joined(redacted_words(with_lower(words(s)), false), " "@)
}

/// Hides the secret words of a list.
pub fn redact_words(list: &Vec<Wording>) -> (r: Vec<String>)
    ensures
        views(r@) == redacted_words(wording_views(list@), false),
{
    broadcast use lemma_views_push;

    let mut out: Vec<String> = Vec::new();
    let mut cover = false;
    let mut i: usize = 0;
    let ghost all = wording_views(list@);
    assert(all.skip(0) =~= all);
    assert(views(out@) =~= seq![]);
    while i < list.len()
        invariant
            i <= list@.len(),
            all == wording_views(list@),
            views(out@) + redacted_words(all.skip(i as int), cover) == redacted_words(all, false),
        decreases list@.len() - i,
    {
        let text = list[i].text.as_slice();
        let ghost rest = all.skip(i as int);
        proof {
            assert(rest[0] == (text@, list@[i as int].lower@));
            assert(rest.drop_first() =~= all.skip(i + 1));
        }
        let ghost before = views(out@);
        let ghost covered = cover;
        if cover {
            out.push(HIDDEN.to_string());
            cover = false;
        } else if list[i].has("密码") || list[i].has_lower("password") || list[i].has_lower("passwd")
            || list[i].has_lower("pwd") {
            out.push(HIDDEN.to_string());
            cover = ends_with(text, "是") || ends_with(text, ":") || ends_with(text, "：")
                || is_text(text, "密码");
        } else {
            out.push(string(text));
        }
        i = i + 1;
        assert(views(out@) + redacted_words(all.skip(i as int), cover) =~= before + redacted_words(
            rest,
            covered,
        ));
    }
    out
}

/// Hides the secret words of a text.
pub fn redact_sensitive_text(value: &str) -> (r: String)
    ensures
        r@ == redacted(value@),
{
    let all = chars(value);
    let parts = split_words(all.as_slice());
    let mut list: Vec<Wording> = Vec::new();
    let mut i: usize = 0;
    while i < parts.len()
        invariant
            i <= parts@.len(),
            slice_views(parts@) == words(value@),
            wording_views(list@) == with_lower(words(value@).take(i as int)),
        decreases parts@.len() - i,
    {
        let part = string(parts[i]);
        let ghost before = list@;
        list.push(wording(part.as_str()));
        assert(words(value@)[i as int] == parts@[i as int]@);
        assert(words(value@).take(i + 1) =~= words(value@).take(i as int).push(part@));
        assert(wording_views(list@) =~= wording_views(before).push((part@, lowered(part@))));
        assert(with_lower(words(value@).take(i + 1)) =~= with_lower(
            words(value@).take(i as int),
        ).push((part@, lowered(part@))));
        i = i + 1;
    }
    assert(words(value@).take(i as int) =~= words(value@));
    join(&redact_words(&list), " ")
}

/// Every word that is shown is a word of the input that speaks of no password; the
/// number of words stays the same.
pub proof fn law_no_secret_word_is_shown(list: Seq<(Seq<char>, Seq<char>)>, cover: bool)
    ensures
        redacted_words(list, cover).len() == list.len(),
        forall|i: int|
            #![trigger redacted_words(list, cover)[i]]
            0 <= i < list.len() ==> (redacted_words(list, cover)[i] == HIDDEN@ || (
            redacted_words(list, cover)[i] == list[i].0 && !secret_word(list[i].0, list[i].1))),
    decreases list.len(),
{
    if list.len() > 0 {
        let (text, lower) = list[0];
        let rest = list.drop_first();
        let next = !cover && secret_word(text, lower) && announces_secret(text);
        law_no_secret_word_is_shown(rest, next);
        let out = redacted_words(list, cover);
        let tail = redacted_words(rest, next);
        assert forall|i: int| #![trigger out[i]] 0 <= i < list.len() implies (out[i] == HIDDEN@ || (
        out[i] == list[i].0 && !secret_word(list[i].0, list[i].1))) by {
            if i > 0 {
                assert(out[i] == tail[i - 1]);
                assert(list[i] == rest[i - 1]);
            }
        }
    }
}

/// The words of a redacted text are the redacted words of the text: nothing is
/// joined or split anew.
pub proof fn law_redacted_words_stay_apart(s: Seq<char>)
    ensures
        words(redacted(s)) == redacted_words(with_lower(words(s)), false),
{
    let list = with_lower(words(s));
    let out = redacted_words(list, false);
    lemma_pieces(s, CharClass::White);
    law_no_secret_word_is_shown(list, false);
    reveal_strlit("***");
    reveal_strlit(" ");
    assert forall|i: int| 0 <= i < out.len() implies is_piece(#[trigger] out[i], CharClass::White) by {
        assert(is_piece(words(s)[i], CharClass::White));
        assert(list[i].0 == words(s)[i]);
    }
    lemma_pieces_joined(out, " "@, CharClass::White);
}

/// The word after one that announces a password is hidden, whatever it is.
pub proof fn law_an_announced_word_is_hidden(list: Seq<(Seq<char>, Seq<char>)>, i: int)
    requires
        0 <= i < list.len() - 1,
        secret_word(list[i].0, list[i].1),
        announces_secret(list[i].0),
        i > 0 ==> !(secret_word(list[i - 1].0, list[i - 1].1) && announces_secret(list[i - 1].0)),
    ensures
        i + 1 < redacted_words(list, false).len(),
        redacted_words(list, false)[i + 1] == HIDDEN@,
{
    lemma_announced(list, false, i);
}

proof fn lemma_announced(list: Seq<(Seq<char>, Seq<char>)>, cover: bool, i: int)
    requires
        0 <= i < list.len() - 1,
        secret_word(list[i].0, list[i].1),
        announces_secret(list[i].0),
        i > 0 ==> !(secret_word(list[i - 1].0, list[i - 1].1) && announces_secret(list[i - 1].0)),
        i == 0 ==> !cover,
    ensures
        i + 1 < redacted_words(list, cover).len(),
        redacted_words(list, cover)[i + 1] == HIDDEN@,
    decreases list.len(),
{
    law_no_secret_word_is_shown(list, cover);
    let (text, lower) = list[0];
    let rest = list.drop_first();
    let next = !cover && secret_word(text, lower) && announces_secret(text);
    if i == 0 {
        assert(redacted_words(rest, true)[0] == HIDDEN@);
        assert(redacted_words(list, cover)[1] == redacted_words(rest, true)[0]);
    } else {
        assert(rest[i - 1] == list[i]);
        if i > 1 {
            assert(rest[i - 2] == list[i - 1]);
        }
        lemma_announced(rest, next, i - 1);
        assert(redacted_words(list, cover)[i + 1] == redacted_words(rest, next)[i]);
    }
}

/// Arguments as they are logged: what follows the option for the key is hidden, the
/// others are redacted.
pub open spec fn redacted_args(args: Seq<Seq<char>>, cover: bool) -> Seq<Seq<char>>
    decreases args.len(),
{
    if args.len() == 0 {
        seq![]
    } else if cover {
        seq![HIDDEN@] + redacted_args(args.drop_first(), false)
    } else {
        seq![redacted(args[0])] + redacted_args(args.drop_first(), args[0] == "--api-key"@)
    }
}

/// Makes the arguments of a command fit to be logged.
pub fn redact_args(args: &Vec<String>) -> (r: Vec<String>)
    ensures
        views(r@) == redacted_args(views(args@), false),
{
    broadcast use lemma_views_push;

    let mut out: Vec<String> = Vec::new();
    let mut cover = false;
    let mut i: usize = 0;
    let ghost all = views(args@);
    assert(all.skip(0) =~= all);
    assert(views(out@) =~= seq![]);
    while i < args.len()
        invariant
            i <= args@.len(),
            all == views(args@),
            views(out@) + redacted_args(all.skip(i as int), cover) == redacted_args(all, false),
        decreases args@.len() - i,
    {
        let ghost rest = all.skip(i as int);
        let ghost before = views(out@);
        let ghost covered = cover;
        assert(rest[0] == args@[i as int]@);
        assert(rest.drop_first() =~= all.skip(i + 1));
        if cover {
            cover = false;
            out.push(HIDDEN.to_string());
        } else {
            cover = same(args[i].as_str(), "--api-key");
            out.push(redact_sensitive_text(args[i].as_str()));
        }
        i = i + 1;
        assert(views(out@) + redacted_args(all.skip(i as int), cover) =~= before + redacted_args(
            rest,
            covered,
        ));
    }
    out
}

/// A word is hidden where it speaks of a password, by any of these words, and a word
/// announces one behind it by its end, or by being the bare word for it.
pub proof fn law_secrets_are_recognised_by_their_words(text: Seq<char>, lower: Seq<char>)
    ensures
        contains_text(text, "密码"@) ==> secret_word(text, lower),
        contains_text(lower, "password"@) ==> secret_word(text, lower),
        contains_text(lower, "passwd"@) ==> secret_word(text, lower),
        contains_text(lower, "pwd"@) ==> secret_word(text, lower),
        secret_word(text, lower) ==> contains_text(text, "密码"@) || contains_text(
            lower,
            "password"@,
        ) || contains_text(lower, "passwd"@) || contains_text(lower, "pwd"@),
        text.len() > 0 && (text.last() == ':' || text.last() == '：' || text.last() == '是')
            ==> announces_secret(text),
        announces_secret("密码"@),
        announces_secret(text) ==> text == "密码"@ || (text.len() > 0 && (text.last() == ':'
            || text.last() == '：' || text.last() == '是')),
        HIDDEN@ == "***"@,
{
    reveal_strlit(":");
    reveal_strlit("：");
    reveal_strlit("是");
    if text.len() > 0 {
        let end = text.subrange(text.len() - 1, text.len() as int);
        assert(end[0] == text.last());
        assert((end =~= ":"@) == (text.last() == ':'));
        assert((end =~= "："@) == (text.last() == '：'));
        assert((end =~= "是"@) == (text.last() == '是'));
    }
}

/// A text that speaks of no password is shown word by word as it is.
pub proof fn law_other_words_are_shown(list: Seq<(Seq<char>, Seq<char>)>)
    requires
        forall|i: int|
            #![trigger list[i]]
            0 <= i < list.len() ==> !contains_text(list[i].0, "密码"@) && !contains_text(
                list[i].1,
                "password"@,
            ) && !contains_text(list[i].1, "passwd"@) && !contains_text(list[i].1, "pwd"@),
    ensures
        redacted_words(list, false) == list.map_values(|w: (Seq<char>, Seq<char>)| w.0),
    decreases list.len(),
{
    let shown = list.map_values(|w: (Seq<char>, Seq<char>)| w.0);
    if list.len() > 0 {
        let rest = list.drop_first();
        assert forall|i: int|
            #![trigger rest[i]]
            0 <= i < rest.len() implies !contains_text(rest[i].0, "密码"@) && !contains_text(
            rest[i].1,
            "password"@,
        ) && !contains_text(rest[i].1, "passwd"@) && !contains_text(rest[i].1, "pwd"@) by {
            assert(rest[i] == list[i + 1]);
        }
        law_other_words_are_shown(rest);
        assert(list[0] == list[0]);
        assert(redacted_words(list, false) =~= shown);
    } else {
        assert(redacted_words(list, false) =~= shown);
    }
}

/// The words behind one that is hidden are shown again, unless it announced them: hiding
/// goes no further than one word.
pub proof fn law_hiding_ends_after_one_word(list: Seq<(Seq<char>, Seq<char>)>)
    requires
        list.len() > 0,
    ensures
        redacted_words(list, true) == seq!["***"@] + redacted_words(list.drop_first(), false),
        secret_word(list[0].0, list[0].1) ==> redacted_words(list, false) == seq!["***"@]
            + redacted_words(list.drop_first(), announces_secret(list[0].0)),
        !secret_word(list[0].0, list[0].1) ==> redacted_words(list, false) == seq![list[0].0]
            + redacted_words(list.drop_first(), false),
{
}

/// The argument behind the option for the key is hidden, and every other argument is
/// logged on its own, with its passwords hidden.
pub proof fn law_keys_are_not_logged(args: Seq<Seq<char>>, i: int)
    requires
        0 <= i < args.len(),
    ensures
        redacted_args(args, false).len() == args.len(),
        i > 0 && args[i - 1] == "--api-key"@ && (forall|j: int|
            0 <= j < i - 1 ==> #[trigger] args[j] != "--api-key"@) ==> redacted_args(args, false)[i]
            == "***"@,
        (forall|j: int| 0 <= j < i ==> #[trigger] args[j] != "--api-key"@) ==> redacted_args(
            args,
            false,
        )[i] == redacted(args[i]),
    decreases args.len(),
{
    let rest = args.drop_first();
    let next = args[0] == "--api-key"@;
    lemma_args_len(args, false);
    if i > 0 {
        if next {
            if i == 1 {
                assert(redacted_args(rest, true)[0] == HIDDEN@);
                assert(redacted_args(args, false)[1] == redacted_args(rest, true)[0]);
            }
        } else {
            law_keys_are_not_logged(rest, i - 1);
            assert(redacted_args(args, false)[i] == redacted_args(rest, false)[i - 1]);
            assert(rest[i - 1] == args[i]);
            assert(forall|j: int| 0 <= j < i - 1 ==> #[trigger] rest[j] == args[j + 1]);
        }
    }
}

proof fn lemma_args_len(args: Seq<Seq<char>>, cover: bool)
    ensures
        redacted_args(args, cover).len() == args.len(),
    decreases args.len(),
{
    if args.len() > 0 {
        lemma_args_len(args.drop_first(), !cover && args[0] == "--api-key"@);
        lemma_args_len(args.drop_first(), false);
    }
}

} // verus!
