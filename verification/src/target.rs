//! Addresses, search terms and durations in what the user asks for.

use vstd::prelude::*;
use vstd::slice::slice_subrange;
use crate::number::{decimal_nat, is_digit, law_decimal_reads_back, parse_nat, parsed_nat};
use crate::request::{names_search_site, names_video_site, wording, Wording};
use crate::search::{
    before_class, contains_text, find, find_text, first_piece, has, lemma_find, lemma_first_found,
    lemma_rfind, matches_at, rfind, rfind_text, split_first, split_once, starts, starts_with,
    strip_prefixes, without_prefixes,
};
use crate::split::{slice_views, split_words, words};
use crate::text::{
    chars, count_run, count_tail, lemma_run_len, lemma_run_len_is, lemma_tail_len,
    lemma_tail_len_is, lemma_trim_of_fixed, lowered, run_len, string, tail_len, trim, trim_class,
    trim_of, trimmed, white, CharClass,
};

verus! {

/// The text is a web address.
pub open spec fn is_url(s: Seq<char>) -> bool {
    starts(s, "http://"@) || starts(s, "https://"@)
}

fn looks_like_url(s: &[char]) -> (r: bool)
    ensures
        r == is_url(s@),
{
    starts_with(s, "http://") || starts_with(s, "https://")
}

/// The quotes, brackets and stops that may stand around an address in a sentence.
pub const URL_EDGES: &'static str = "\"'`<>，。、,.;；)(][";

/// The first word that is a web address once the marks around it are gone.
pub open spec fn first_url(list: Seq<Seq<char>>) -> Option<Seq<char>>
    decreases list.len(),
{
    if list.len() == 0 {
        None
    } else {
        let bare = trim_of(list[0], CharClass::OneOf(URL_EDGES));
        if is_url(bare) {
            Some(bare)
        } else {
            first_url(list.drop_first())
        }
    }
}

/// The address that the wording gives: the first one written out, else that of a
/// site that it names.
pub open spec fn page_url(text: Seq<char>, lower: Seq<char>) -> Option<Seq<char>> {
    match first_url(words(text)) {
        Some(url) => Some(url),
        None => if names_video_site(text, lower) {
            Some("https://www.bilibili.com"@)
        } else if names_search_site(text, lower) {
            Some("https://www.baidu.com"@)
        } else {
            None
        },
    }
}

fn find_url(text: &[char]) -> (r: Option<String>)
    ensures
        match r {
            Some(s) => first_url(words(text@)) == Some(s@),
            None => first_url(words(text@)) is None,
        },
{
    let list = split_words(text);
    let ghost all = slice_views(list@);
    let mut i: usize = 0;
    assert(all.skip(0) =~= all);
    while i < list.len()
        invariant
            i <= list.len(),
            all == slice_views(list@),
            all == words(text@),
            first_url(all) == first_url(all.skip(i as int)),
        decreases list.len() - i,
    {
        let ghost rest = all.skip(i as int);
        assert(rest[0] == list@[i as int]@);
        assert(rest.drop_first() =~= all.skip(i + 1));
        let bare = trim_class(list[i], CharClass::OneOf(URL_EDGES));
        if looks_like_url(bare) {
            return Some(string(bare));
        }
        i = i + 1;
    }
    None
}

impl Wording {
    /// The address that the wording gives.
    pub fn page_url(&self) -> (r: Option<String>)
        ensures
            match r {
                Some(s) => page_url(self.text@, self.lower@) == Some(s@),
                None => page_url(self.text@, self.lower@) is None,
            },
    {
        match find_url(self.text.as_slice()) {
            Some(url) => Some(url),
            None => if self.names_video_site() {
                Some("https://www.bilibili.com".to_string())
            } else if self.names_search_site() {
                Some("https://www.baidu.com".to_string())
            } else {
                None
            },
        }
    }
}

/// The address that a prompt gives.
pub fn extract_screenshot_url(prompt: &str) -> (r: Option<String>)
    ensures
        match r {
            Some(s) => page_url(prompt@, lowered(prompt@)) == Some(s@),
            None => page_url(prompt@, lowered(prompt@)) is None,
        },
{
    wording(prompt).page_url()
}

/// An address without the white space and quotes around it.
pub open spec fn unquoted(value: Seq<char>) -> Seq<char> {
    trim_of(trim_of(trimmed(value), CharClass::OneOf("\"")), CharClass::OneOf("'"))
}

/// An address to start from: a web address as it is; a name with a dot and without
/// a space with the scheme before it. `lower` is the bare address in small letters.
pub open spec fn start_url(bare: Seq<char>, lower: Seq<char>) -> Option<Seq<char>> {
    if bare.len() == 0 {
        None
    } else if is_url(bare) {
        Some(bare)
    } else if contains_text(lower, "."@) && !contains_text(bare, " "@) {
        Some("https://"@ + without_prefixes(bare, "//"@))
    } else {
        None
    }
}

/// Makes an address to start from out of a bare address.
pub fn complete_start_url(bare: &Wording) -> (r: Option<String>)
    ensures
        match r {
            Some(s) => start_url(bare.text@, bare.lower@) == Some(s@),
            None => start_url(bare.text@, bare.lower@) is None,
        },
{
    if bare.text.len() == 0 {
        return None;
    }
    if looks_like_url(bare.text.as_slice()) {
        return Some(string(bare.text.as_slice()));
    }
    if bare.has_lower(".") && !bare.has(" ") {
        let mut out = "https://".to_string();
        out.append(string(strip_prefixes(bare.text.as_slice(), "//")).as_str());
        Some(out)
    } else {
        None
    }
}

/// Makes an address to start from out of what a plan gives.
pub fn normalize_browser_start_url(value: &str) -> (r: Option<String>)
    ensures
        match r {
            Some(s) => start_url(unquoted(value@), lowered(unquoted(value@))) == Some(s@),
            None => start_url(unquoted(value@), lowered(unquoted(value@))) is None,
        },
{
    let all = chars(value);
    let bare = trim_class(
        trim_class(trim(all.as_slice()), CharClass::OneOf("\"")),
        CharClass::OneOf("'"),
    );
    complete_start_url(&wording(string(bare).as_str()))
}

proof fn lemma_first_url(list: Seq<Seq<char>>)
    ensures
        first_url(list) matches Some(url) ==> is_url(url),
    decreases list.len(),
{
    if list.len() > 0 {
        lemma_first_url(list.drop_first());
    }
}

/// Every address that a browser run starts from is a web address.
pub proof fn law_start_addresses_are_web_addresses(text: Seq<char>, lower: Seq<char>)
    ensures
        page_url(text, lower) matches Some(url) ==> is_url(url),
        start_url(text, lower) matches Some(url) ==> is_url(url),
{
    lemma_first_url(words(text));
    reveal_strlit("https://");
    reveal_strlit("https://www.bilibili.com");
    reveal_strlit("https://www.baidu.com");
    assert("https://www.bilibili.com"@.subrange(0, 8) =~= "https://"@);
    assert("https://www.baidu.com"@.subrange(0, 8) =~= "https://"@);
    let made = "https://"@ + without_prefixes(text, "//"@);
    assert(made.subrange(0, 8) =~= "https://"@);
}

/// The marks that end a search term.
pub const TERM_ENDS: &'static str = "，,。;；\n";

/// The term after a marker, up to the next mark.
pub open spec fn term_after(request: Seq<char>, marker: Seq<char>) -> Seq<char> {
    match split_first(request, marker) {
        Some((_, tail)) => trimmed(before_class(tail, CharClass::OneOf(TERM_ENDS))),
        None => seq![],
    }
}

/// The term after a marker, up to the next mark or the word for what comes next.
pub open spec fn topic_after(request: Seq<char>, marker: Seq<char>) -> Seq<char> {
    match split_first(request, marker) {
        Some((_, tail)) => {
            let clause = before_class(tail, CharClass::OneOf(TERM_ENDS));
            match split_first(clause, "然后"@) {
                Some((head, _)) => trimmed(head),
                None => trimmed(clause),
            }
        },
        None => seq![],
    }
}

/// The wording asks for a search.
pub open spec fn wants_search(text: Seq<char>, lower: Seq<char>) -> bool {
    ||| contains_text(text, "搜索"@)
    ||| contains_text(text, "搜"@)
    ||| contains_text(lower, "search"@)
}

/// What to search for: the term after the first marker that has one.
pub open spec fn search_term(text: Seq<char>) -> Seq<char> {
    if contains_text(text, "今日热点相关新闻"@) {
        "今日热点相关新闻"@
    } else if topic_after(text, "任意搜索一些"@).len() > 0 {
        topic_after(text, "任意搜索一些"@)
    } else if topic_after(text, "随便搜索一些"@).len() > 0 {
        topic_after(text, "随便搜索一些"@)
    } else if topic_after(text, "搜索一些"@).len() > 0 {
        topic_after(text, "搜索一些"@)
    } else if topic_after(text, "去搜一些"@).len() > 0 {
        topic_after(text, "去搜一些"@)
    } else if topic_after(text, "搜一些"@).len() > 0 {
        topic_after(text, "搜一些"@)
    } else if term_after(text, "搜索"@).len() > 0 {
        term_after(text, "搜索"@)
    } else {
        term_after(text, "search"@)
    }
}

/// What the wording asks to search for, if it asks for a search.
pub open spec fn search_query(text: Seq<char>, lower: Seq<char>) -> Seq<char> {
    if wants_search(text, lower) {
        search_term(text)
    } else {
        seq![]
    }
}

fn find_term(text: &[char], marker: &str) -> (r: String)
    ensures
        r@ == term_after(text@, marker@),
{
    match split_once(text, marker) {
        Some((_, tail)) => string(trim(first_piece(tail, CharClass::OneOf(TERM_ENDS)))),
        None => String::new(),
    }
}

fn find_topic(text: &[char], marker: &str) -> (r: String)
    ensures
        r@ == topic_after(text@, marker@),
{
    match split_once(text, marker) {
        Some((_, tail)) => {
            let clause = first_piece(tail, CharClass::OneOf(TERM_ENDS));
            match split_once(clause, "然后") {
                Some((head, _)) => string(trim(head)),
                None => string(trim(clause)),
            }
        },
        None => String::new(),
    }
}

impl Wording {
    /// What the wording asks to search for.
    pub fn search_query(&self) -> (r: String)
        ensures
            r@ == search_query(self.text@, self.lower@),
    {
        if !(self.has("搜索") || self.has("搜") || self.has_lower("search")) {
            return String::new();
        }
        if self.has("今日热点相关新闻") {
            return "今日热点相关新闻".to_string();
        }
        let text = self.text.as_slice();
        let topic = find_topic(text, "任意搜索一些");
        if !topic.as_str().is_empty() {
            return topic;
        }
        let topic = find_topic(text, "随便搜索一些");
        if !topic.as_str().is_empty() {
            return topic;
        }
        let topic = find_topic(text, "搜索一些");
        if !topic.as_str().is_empty() {
            return topic;
        }
        let topic = find_topic(text, "去搜一些");
        if !topic.as_str().is_empty() {
            return topic;
        }
        let topic = find_topic(text, "搜一些");
        if !topic.as_str().is_empty() {
            return topic;
        }
        let term = find_term(text, "搜索");
        if !term.as_str().is_empty() {
            return term;
        }
        find_term(text, "search")
    }
}

/// What a request asks to search for.
pub fn extract_search_query(request: &str) -> (r: String)
    ensures
        r@ == search_query(request@, lowered(request@)),
{
    wording(request).search_query()
}

/// The piece from the first opening brace to the last closing one.
pub open spec fn braced(text: Seq<char>) -> Option<Seq<char>> {
    match (find(text, "{"@), rfind(text, "}"@)) {
        (Some(a), Some(b)) => if b <= a {
            None
        } else {
            Some(text.subrange(a, b + 1))
        },
        _ => None,
    }
}

/// Cuts the JSON object out of an answer.
pub fn extract_json_object(text: &str) -> (r: Option<String>)
    ensures
        match r {
            Some(s) => braced(text@) == Some(s@),
            None => braced(text@) is None,
        },
{
    let all = chars(text);
    let n: usize = all.len();
    proof {
        reveal_strlit("}");
    }
    match (find_text(all.as_slice(), "{"), rfind_text(all.as_slice(), "}")) {
        (Some(a), Some(b)) => if b <= a {
            None
        } else {
            let piece = slice_subrange(all.as_slice(), a, b + 1);
            assert(piece@ =~= text@.subrange(a as int, b + 1));
            Some(string(piece))
        },
        _ => None,
    }
}

/// The object that is cut out of an answer is a piece of it, from the first opening brace
/// to the last closing one.
pub proof fn law_objects_are_braced(text: Seq<char>)
    ensures
        braced(text) matches Some(piece) ==> {
            &&& piece[0] == '{'
            &&& piece.last() == '}'
            &&& contains_text(text, piece)
            &&& exists|a: int|
                {
                    &&& #[trigger] matches_at(text, piece, a)
                    &&& forall|i: int| 0 <= i < a ==> text[i] != '{'
                    &&& forall|i: int| a + piece.len() <= i < text.len() ==> text[i] != '}'
                }
        },
{
    reveal_strlit("{");
    reveal_strlit("}");
    lemma_find(text, "{"@);
    lemma_rfind(text, "}"@);
    if let Some(piece) = braced(text) {
        let a = find(text, "{"@)->0;
        let b = rfind(text, "}"@)->0;
        assert(text.subrange(a, a + 1)[0] == '{');
        assert(text.subrange(b, b + 1)[0] == '}');
        assert(piece[0] == '{');
        assert(piece.last() == '}');
        assert(matches_at(text, piece, a));
        assert forall|i: int| 0 <= i < a implies text[i] != '{' by {
            if text[i] == '{' {
                assert(text.subrange(i, i + 1) =~= "{"@);
                assert(matches_at(text, "{"@, i));
            }
        }
        assert forall|i: int| a + piece.len() <= i < text.len() implies text[i] != '}' by {
            if text[i] == '}' {
                assert(text.subrange(i, i + 1) =~= "}"@);
                assert(matches_at(text, "}"@, i));
            }
        }
    }
}

/// The decimal digits.
pub const DIGITS: &'static str = "0123456789";

/// A character that marks the number before it as seconds.
pub open spec fn seconds_mark(c: char) -> bool {
    c == 's' || c == '秒'
}

/// The first number in the text with a mark for seconds right behind it.
pub open spec fn marked_seconds(s: Seq<char>) -> Option<nat>
    decreases s.len(),
{
    if s.len() == 0 {
        None
    } else {
        let n = run_len(s, CharClass::OneOf(DIGITS), true);
        proof {
            lemma_run_len(s, CharClass::OneOf(DIGITS), true);
        }
        if n == 0 {
            marked_seconds(s.skip(1))
        } else if n < s.len() && seconds_mark(s[n as int]) && parsed_nat(
            s.take(n as int),
            u64::MAX as nat,
        ) is Some {
            parsed_nat(s.take(n as int), u64::MAX as nat)
        } else {
            marked_seconds(s.skip(n as int))
        }
    }
}

/// The number at the end of the text, if a mark for seconds stands anywhere in it.
pub open spec fn last_seconds(s: Seq<char>) -> Option<nat> {
    let n = tail_len(s, CharClass::OneOf(DIGITS));
    if n > 0 && (contains_text(s, "秒"@) || contains_text(s, "s"@)) {
        parsed_nat(s.skip(s.len() - n), u64::MAX as nat)
    } else {
        None
    }
}

/// A duration of at least one second, kept within a limit.
pub open spec fn within_limit(n: nat, max: nat) -> nat {
    if n < 1 {
        1
    } else if n > max {
        max
    } else {
        n
    }
}

/// How long to record: the first number marked as seconds, else the number at the
/// end, within two minutes; ten seconds where there is none.
pub open spec fn record_seconds(lower: Seq<char>) -> nat {
    match marked_seconds(lower) {
        Some(n) => within_limit(n, 120),
        None => match last_seconds(lower) {
            Some(n) => within_limit(n, 120),
            None => 10,
        },
    }
}

/// A duration of at least one second, kept within a limit.
pub fn clamp_seconds(n: u64, max: u64) -> (r: u64)
    requires
        max >= 1,
    ensures
        r == within_limit(n as nat, max as nat),
{
    if n < 1 {
        1
    } else if n > max {
        max
    } else {
        n
    }
}

fn find_marked_seconds(s: &[char]) -> (r: Option<u64>)
    ensures
        match r {
            Some(n) => marked_seconds(s@) == Some(n as nat),
            None => marked_seconds(s@) is None,
        },
{
    let mut i: usize = 0;
    assert(s@.skip(0) =~= s@);
    while i < s.len()
        invariant
            i <= s@.len(),
            marked_seconds(s@) == marked_seconds(s@.skip(i as int)),
        decreases s.len() - i,
    {
        let rest = slice_subrange(s, i, s.len());
        assert(rest@ =~= s@.skip(i as int));
        let n: usize = count_run(rest, CharClass::OneOf(DIGITS), true);
        proof {
            lemma_run_len(rest@, CharClass::OneOf(DIGITS), true);
            assert(rest@.skip(1) =~= s@.skip(i + 1));
            assert(rest@.skip(n as int) =~= s@.skip(i + n));
        }
        if n == 0 {
            i = i + 1;
        } else {
            if n < rest.len() && (rest[n] == 's' || rest[n] == '秒') {
                let number = slice_subrange(rest, 0, n);
                assert(number@ =~= rest@.take(n as int));
                if let Some(value) = parse_nat(number, u64::MAX) {
                    return Some(value);
                }
            }
            i = i + n;
        }
    }
    None
}

/// How long to record, by a request in small letters.
pub fn recording_time(lower: &[char]) -> (r: u64)
    ensures
        r == record_seconds(lower@),
{
    if let Some(n) = find_marked_seconds(lower) {
        return clamp_seconds(n, 120);
    }
    let n: usize = count_tail(lower, CharClass::OneOf(DIGITS));
    if n > 0 && (has(lower, "秒") || has(lower, "s")) {
        proof {
            lemma_tail_len(lower@, CharClass::OneOf(DIGITS));
        }
        let number = slice_subrange(lower, lower.len() - n, lower.len());
        assert(number@ =~= lower@.skip(lower@.len() - n));
        if let Some(value) = parse_nat(number, u64::MAX) {
            return clamp_seconds(value, 120);
        }
    }
    10
}

/// How long a request wants to record.
pub fn extract_record_seconds(request: &str) -> (r: u64)
    ensures
        r == record_seconds(lowered(request@)),
{
    recording_time(wording(request).lower.as_slice())
}

/// A recording takes at least one second and at most two minutes.
pub proof fn law_recordings_are_short(lower: Seq<char>)
    ensures
        1 <= record_seconds(lower) <= 120,
{
}

/// A character that may stand in the name of a picture or video.
pub open spec fn name_char(c: char) -> bool {
    ||| 'a' <= c && c <= 'z'
    ||| 'A' <= c && c <= 'Z'
    ||| '0' <= c && c <= '9'
    ||| c == '.'
    ||| c == '-'
    ||| c == '_'
}

/// The characters of a text that may stand in a name.
pub open spec fn name_chars(s: Seq<char>) -> Seq<char> {
    s.filter(|c: char| name_char(c))
}

/// A name made from an address.
pub open spec fn name_piece(s: Seq<char>) -> Seq<char> {
    let kept = name_chars(s);
    if kept.len() == 0 {
        "page"@
    } else if kept.len() > 48 {
        kept.take(48)
    } else {
        kept
    }
}

/// Makes a name from an address.
pub fn sanitize_filename_piece(value: &str) -> (r: String)
    ensures
        r@ == name_piece(value@),
{
    let all = chars(value);
    let mut kept: Vec<char> = Vec::new();
    let mut i: usize = 0;
    proof {
        reveal(Seq::filter);
        assert(all@.take(0) =~= seq![]);
    }
    while i < all.len()
        invariant
            i <= all@.len(),
            kept@ == name_chars(all@.take(i as int)),
        decreases all@.len() - i,
    {
        let c = all[i];
        proof {
            reveal(Seq::filter);
            assert(all@.take(i + 1).drop_last() =~= all@.take(i as int));
        }
        if ('a' <= c && c <= 'z') || ('A' <= c && c <= 'Z') || ('0' <= c && c <= '9') || c == '.'
            || c == '-' || c == '_' {
            kept.push(c);
        }
        i = i + 1;
    }
    assert(all@.take(i as int) =~= all@);
    if kept.len() == 0 {
        "page".to_string()
    } else if kept.len() > 48 {
        let front = slice_subrange(kept.as_slice(), 0, 48);
        assert(front@ =~= kept@.take(48));
        string(front)
    } else {
        string(kept.as_slice())
    }
}

/// A name made from an address is not empty, has at most 48 characters, and holds
/// ASCII letters, digits, dots, hyphens and underscores only.
pub proof fn law_names_are_plain(s: Seq<char>)
    ensures
        1 <= name_piece(s).len() <= 48,
        forall|i: int| 0 <= i < name_piece(s).len() ==> name_char(#[trigger] name_piece(s)[i]),
{
    reveal_strlit("page");
    broadcast use vstd::seq_lib::group_filter_ensures;

}

/// The address is that of the first word that is one when the punctuation around it is
/// taken away; without one it is that of the site that is named, the video site before the
/// search site.
pub proof fn law_addresses_are_taken_from_the_request(text: Seq<char>, lower: Seq<char>, i: int)
    ensures
        ({
            let edges = CharClass::OneOf("\"'`<>，。、,.;；)(][");
            let list = words(text);
            &&& 0 <= i < list.len() && (starts(trim_of(list[i], edges), "http://"@) || starts(
                trim_of(list[i], edges),
                "https://"@,
            )) && (forall|j: int|
                0 <= j < i ==> !starts(trim_of(#[trigger] list[j], edges), "http://"@) && !starts(
                    trim_of(list[j], edges),
                    "https://"@,
                )) ==> page_url(text, lower) == Some(trim_of(list[i], edges))
            &&& (forall|j: int|
                0 <= j < list.len() ==> !starts(trim_of(#[trigger] list[j], edges), "http://"@)
                    && !starts(trim_of(list[j], edges), "https://"@)) ==> page_url(text, lower)
                == (if contains_text(lower, "bilibili"@) || contains_text(lower, "b站"@)
                || contains_text(text, "B站"@) || contains_text(text, "b站"@) || contains_text(
                text,
                "哔哩哔哩"@,
            ) {
                Some("https://www.bilibili.com"@)
            } else if contains_text(lower, "baidu"@) || contains_text(text, "百度"@) {
                Some("https://www.baidu.com"@)
            } else {
                None
            })
        }),
{
    lemma_first_url_at(words(text), i);
}

proof fn lemma_first_url_at(list: Seq<Seq<char>>, i: int)
    ensures
        0 <= i < list.len() && is_url(trim_of(list[i], CharClass::OneOf(URL_EDGES))) && (forall|
            j: int,
        |
            0 <= j < i ==> !is_url(trim_of(#[trigger] list[j], CharClass::OneOf(URL_EDGES))))
            ==> first_url(list) == Some(trim_of(list[i], CharClass::OneOf(URL_EDGES))),
        (forall|j: int|
            0 <= j < list.len() ==> !is_url(
                trim_of(#[trigger] list[j], CharClass::OneOf(URL_EDGES)),
            )) ==> first_url(list) is None,
    decreases list.len(),
{
    if list.len() > 0 {
        let rest = list.drop_first();
        lemma_first_url_at(rest, i - 1);
        assert(forall|j: int| 0 <= j < rest.len() ==> #[trigger] rest[j] == list[j + 1]);
    }
}

/// A whole address is taken as it is; one with a dot and without a blank in it is completed,
/// and slashes before it make no difference; anything else is none.
pub proof fn law_typed_addresses_are_completed(bare: Seq<char>, lower: Seq<char>)
    ensures
        starts(bare, "http://"@) || starts(bare, "https://"@) ==> start_url(bare, lower) == Some(
            bare,
        ),
        !starts(bare, "http://"@) && !starts(bare, "https://"@) ==> {
            &&& bare.len() > 0 && contains_text(lower, "."@) && !contains_text(bare, " "@)
                && !starts(bare, "//"@) ==> start_url(bare, lower) == Some("https://"@ + bare)
            &&& bare.len() > 0 && contains_text(lower, "."@) && !contains_text(bare, " "@) && starts(
                bare,
                "//"@,
            ) ==> start_url(bare, lower) == Some("https://"@ + without_prefixes(bare, "//"@))
            &&& !contains_text(lower, "."@) || contains_text(bare, " "@) || bare.len() == 0
                ==> start_url(bare, lower) is None
        },
{
    reveal_strlit("http://");
    reveal_strlit("https://");
}

/// What is searched for is the text between the word for searching and the next comma,
/// full stop, semicolon or line end, without the white space around it.
pub proof fn law_terms_stand_behind_the_word(
    before: Seq<char>,
    term: Seq<char>,
    rest: Seq<char>,
    lower: Seq<char>,
)
    requires
        !contains_text(before, "搜索"@),
        forall|i: int| 0 <= i < term.len() ==> !"，,。;；\n"@.contains(#[trigger] term[i]),
        trimmed(term).len() > 0,
        rest.len() > 0 ==> "，,。;；\n"@.contains(rest[0]),
        !contains_text(before + "搜索"@ + term + rest, "今日热点相关新闻"@),
        !contains_text(before + "搜索"@ + term + rest, "一些"@),
    ensures
        search_query(before + "搜索"@ + term + rest, lower) == trimmed(term),
{
    reveal_strlit("搜索");
    reveal_strlit("一些");
    reveal_strlit("任意搜索一些");
    reveal_strlit("随便搜索一些");
    reveal_strlit("搜索一些");
    reveal_strlit("去搜一些");
    reveal_strlit("搜一些");
    let text = before + "搜索"@ + term + rest;
    let n = before.len() as int;
    assert(text.subrange(n, n + 2) =~= "搜索"@);
    assert(matches_at(text, "搜索"@, n));
    assert(contains_text(text, "搜索"@));
    lemma_no_topic(text, "任意搜索一些"@);
    lemma_no_topic(text, "随便搜索一些"@);
    lemma_no_topic(text, "搜索一些"@);
    lemma_no_topic(text, "去搜一些"@);
    lemma_no_topic(text, "搜一些"@);
    lemma_find(text, "搜索"@);
    let k = find(text, "搜索"@)->0;
    if k < n {
        let found = text.subrange(k, k + 2);
        assert(found[0] == '搜' && found[1] == '索');
        if k + 2 <= n {
            assert(before.subrange(k, k + 2) =~= found);
            assert(matches_at(before, "搜索"@, k));
        } else {
            assert(text[k + 1] == '搜');
        }
    }
    assert(k == n);
    let tail = text.skip(n + 2);
    assert(tail =~= term + rest);
    let stop = CharClass::OneOf(TERM_ENDS);
    assert forall|i: int| 0 <= i < term.len() implies !stop.holds(#[trigger] tail[i]) by {
        assert(tail[i] == term[i]);
    }
    if rest.len() > 0 {
        assert(tail[term.len() as int] == rest[0]);
    }
    lemma_run_len_is(tail, stop, false, term.len());
    assert(before_class(tail, stop) =~= term);
}

/// Where the word behind a marker does not stand, the marker does not either.
proof fn lemma_no_topic(text: Seq<char>, marker: Seq<char>)
    requires
        !contains_text(text, "一些"@),
        marker.len() >= 2,
        marker.skip(marker.len() - 2) =~= "一些"@,
    ensures
        topic_after(text, marker).len() == 0,
{
    reveal_strlit("一些");
    lemma_find(text, marker);
    if let Some(k) = find(text, marker) {
        let at = k + marker.len() - 2;
        assert(text.subrange(at, at + 2) =~= text.subrange(k, k + marker.len()).skip(
            marker.len() - 2,
        ));
        assert(matches_at(text, "一些"@, at));
    }
}

/// Where some of a topic are asked for, the topic is the text between the marker and the
/// word for what comes next, or the next comma, full stop, semicolon or line end.
#[verifier::rlimit(40)]
pub proof fn law_topics_stand_before_the_next_step(
    before: Seq<char>,
    topic: Seq<char>,
    rest: Seq<char>,
    lower: Seq<char>,
)
    requires
        !contains_text(before, "搜一些"@),
        forall|i: int| 0 <= i < topic.len() ==> !"，,。;；\n"@.contains(#[trigger] topic[i]),
        !contains_text(topic, "然后"@),
        topic.last() != '然',
        trimmed(topic).len() > 0,
        forall|i: int| 0 <= i < rest.len() ==> !"，,。;；\n"@.contains(#[trigger] rest[i]),
        !contains_text(before + "搜一些"@ + topic + "然后"@ + rest, "今日热点相关新闻"@),
        !contains_text(before + "搜一些"@ + topic + "然后"@ + rest, "搜索"@),
        !contains_text(before + "搜一些"@ + topic + "然后"@ + rest, "去搜一些"@),
    ensures
        search_query(before + "搜一些"@ + topic + "然后"@ + rest, lower) == trimmed(topic),
{
    reveal_strlit("搜");
    reveal_strlit("搜索");
    reveal_strlit("任意搜索一些");
    reveal_strlit("随便搜索一些");
    reveal_strlit("搜索一些");
    reveal_strlit("搜一些");
    reveal_strlit("然后");
    let text = before + "搜一些"@ + topic + "然后"@ + rest;
    let n = before.len() as int;
    assert(text.subrange(n, n + 1) =~= "搜"@);
    assert(matches_at(text, "搜"@, n));
    assert(contains_text(text, "搜"@));
    lemma_no_search(text, "任意搜索一些"@, 2);
    lemma_no_search(text, "随便搜索一些"@, 2);
    lemma_no_search(text, "搜索一些"@, 0);
    lemma_find(text, "去搜一些"@);
    assert(topic_after(text, "去搜一些"@).len() == 0);
    assert(text.subrange(n, n + 3) =~= "搜一些"@);
    assert(matches_at(text, "搜一些"@, n));
    lemma_find(text, "搜一些"@);
    let k = find(text, "搜一些"@)->0;
    if k < n {
        let found = text.subrange(k, k + 3);
        assert(found[0] == '搜' && found[1] == '一' && found[2] == '些');
        if k + 3 <= n {
            assert(before.subrange(k, k + 3) =~= found);
            assert(matches_at(before, "搜一些"@, k));
        } else {
            assert(text[n] == '搜');
            assert(text[n] == found[n - k]);
        }
    }
    assert(k == n);
    let tail = text.skip(n + 3);
    assert(tail =~= topic + "然后"@ + rest);
    let stop = CharClass::OneOf(TERM_ENDS);
    assert forall|i: int| 0 <= i < tail.len() implies !stop.holds(#[trigger] tail[i]) by {
        if i < topic.len() {
            assert(tail[i] == topic[i]);
        } else if i < topic.len() + 2 {
            reveal_strlit("，,。;；\n");
            assert(tail[i] == '然' || tail[i] == '后');
        } else {
            assert(tail[i] == rest[i - topic.len() - 2]);
        }
    }
    lemma_run_len_is(tail, stop, false, tail.len());
    assert(before_class(tail, stop) =~= tail);
    let m = topic.len() as int;
    assert(tail.subrange(m, m + 2) =~= "然后"@);
    assert(matches_at(tail, "然后"@, m));
    lemma_find(tail, "然后"@);
    let h = find(tail, "然后"@)->0;
    if h < m {
        let found = tail.subrange(h, h + 2);
        assert(found[0] == '然' && found[1] == '后');
        if h + 2 <= m {
            assert(topic.subrange(h, h + 2) =~= found);
            assert(matches_at(topic, "然后"@, h));
        } else {
            assert(tail[h] == topic.last());
        }
    }
    assert(h == m);
    assert(tail.take(m) =~= topic);
}

/// Where the word for searching does not stand, a marker with it does not either.
proof fn lemma_no_search(text: Seq<char>, marker: Seq<char>, at: int)
    requires
        !contains_text(text, "搜索"@),
        0 <= at <= marker.len() - 2,
        marker.subrange(at, at + 2) =~= "搜索"@,
    ensures
        topic_after(text, marker).len() == 0,
{
    reveal_strlit("搜索");
    lemma_find(text, marker);
    if let Some(k) = find(text, marker) {
        assert(text.subrange(k + at, k + at + 2) =~= text.subrange(k, k + marker.len()).subrange(
            at,
            at + 2,
        ));
        assert(matches_at(text, "搜索"@, k + at));
    }
}

/// Nothing is searched for where no word for searching stands.
pub proof fn law_nothing_is_searched_for_unasked(text: Seq<char>, lower: Seq<char>)
    ensures
        !contains_text(text, "搜"@) && !contains_text(text, "搜索"@) && !contains_text(
            lower,
            "search"@,
        ) ==> search_query(text, lower).len() == 0,
        contains_text(text, "今日热点相关新闻"@) && (contains_text(text, "搜"@) || contains_text(
            text,
            "搜索"@,
        ) || contains_text(lower, "search"@)) ==> search_query(text, lower)
            == "今日热点相关新闻"@,
{
}

/// The first number of a request with the mark of seconds behind it is how long is
/// recorded, but at least one second and at most two minutes; without digits it is ten
/// seconds.
pub proof fn law_asked_seconds_are_recorded(
    before: Seq<char>,
    n: nat,
    mark: char,
    rest: Seq<char>,
)
    requires
        forall|i: int| 0 <= i < before.len() ==> !is_digit(#[trigger] before[i]),
        n <= u64::MAX,
        mark == 's' || mark == '秒',
    ensures
        record_seconds(before + decimal_nat(n) + seq![mark] + rest) == (if n == 0 {
            1
        } else if n > 120 {
            120
        } else {
            n
        }),
        record_seconds(before) == 10,
{
    let digits = CharClass::OneOf(DIGITS);
    lemma_digit_class();
    let number = decimal_nat(n);
    let tail = number + seq![mark] + rest;
    law_decimal_reads_back(n, u64::MAX as nat);
    lemma_all_digits(n);
    assert(before + number + seq![mark] + rest =~= before + tail);
    lemma_skip_text(before, tail);
    lemma_skip_text(before, seq![]);
    assert(before + Seq::<char>::empty() =~= before);
    assert forall|i: int| 0 <= i < number.len() implies digits.holds(#[trigger] tail[i]) by {
        assert(tail[i] == number[i]);
        assert(is_digit(number[i]));
    }
    assert(tail[number.len() as int] == mark);
    assert(!is_digit(mark));
    lemma_run_len_is(tail, digits, true, number.len());
    assert(tail.take(number.len() as int) =~= number);
    assert(marked_seconds(tail) == Some(n));
    lemma_tail_len(before, digits);
    if tail_len(before, digits) > 0 {
        assert(digits.holds(before[before.len() - 1]));
    }
}

/// The digits are those of numbers.
proof fn lemma_digit_class()
    ensures
        forall|c: char| CharClass::OneOf(DIGITS).holds(c) == #[trigger] is_digit(c),
{
    reveal_strlit("0123456789");
    let digits = CharClass::OneOf(DIGITS);
    assert forall|c: char| digits.holds(c) == #[trigger] is_digit(c) by {
        if is_digit(c) {
            assert(DIGITS@[c as u32 as int - 48] == c);
        }
    }
}

proof fn lemma_all_digits(n: nat)
    ensures
        decimal_nat(n).len() > 0,
        forall|i: int| 0 <= i < decimal_nat(n).len() ==> is_digit(#[trigger] decimal_nat(n)[i]),
    decreases n,
{
    if n >= 10 {
        lemma_all_digits(n / 10);
        let s = decimal_nat(n);
        assert forall|i: int| 0 <= i < s.len() implies is_digit(#[trigger] s[i]) by {
            if i < s.len() - 1 {
                assert(s[i] == decimal_nat(n / 10)[i]);
            }
        }
    }
}

/// Text without digits is passed over.
proof fn lemma_skip_text(a: Seq<char>, s: Seq<char>)
    requires
        forall|i: int| 0 <= i < a.len() ==> !is_digit(#[trigger] a[i]),
    ensures
        marked_seconds(a + s) == marked_seconds(s),
    decreases a.len(),
{
    if a.len() == 0 {
        assert(a + s =~= s);
    } else {
        lemma_digit_class();
        let all = a + s;
        assert(all[0] == a[0]);
        lemma_run_len_is(all, CharClass::OneOf(DIGITS), true, 0);
        let rest = a.skip(1);
        assert forall|i: int| 0 <= i < rest.len() implies !is_digit(#[trigger] rest[i]) by {
            assert(rest[i] == a[i + 1]);
        }
        lemma_skip_text(rest, s);
        assert(all.skip(1) =~= rest + s);
    }
}

/// A time within the limits stays as it is, and one past a limit becomes the limit.
pub proof fn law_times_are_kept_within_their_limits(n: nat, max: nat)
    requires
        max >= 1,
    ensures
        1 <= n <= max ==> within_limit(n, max) == n,
        n > max ==> within_limit(n, max) == max,
        n == 0 ==> within_limit(n, max) == 1,
{
}

/// A name of letters and digits of ASCII, dots, hyphens and underscores stays as it is, up
/// to its length; other characters are left out, and a name of nothing else is replaced.
pub proof fn law_names_keep_their_plain_characters(s: Seq<char>, a: Seq<char>, c: char, b: Seq<char>)
    ensures
        forall|d: char| #[trigger]
            name_char(d) == ('a' <= d && d <= 'z' || 'A' <= d && d <= 'Z' || '0' <= d && d <= '9'
                || d == '.' || d == '-' || d == '_'),
        s.len() > 0 && (forall|i: int| 0 <= i < s.len() ==> name_char(#[trigger] s[i]))
            ==> name_piece(s) == (if s.len() <= 48 {
            s
        } else {
            s.take(48)
        }),
        !name_char(c) ==> name_piece(a + seq![c] + b) == name_piece(a + b),
        (forall|i: int| 0 <= i < s.len() ==> !name_char(#[trigger] s[i])) ==> name_piece(s)
            == "page"@,
{
    let keep = |d: char| name_char(d);
    if forall|i: int| 0 <= i < s.len() ==> name_char(#[trigger] s[i]) {
        lemma_all_named(s);
    }
    if forall|i: int| 0 <= i < s.len() ==> !name_char(#[trigger] s[i]) {
        lemma_none_named(s);
    }
    if !name_char(c) {
        lemma_none_named(seq![c]);
        Seq::filter_distributes_over_add(a + seq![c], b, keep);
        Seq::filter_distributes_over_add(a, seq![c], keep);
        Seq::filter_distributes_over_add(a, b, keep);
        assert(name_chars(a) + name_chars(seq![c]) =~= name_chars(a));
    }
}

proof fn lemma_all_named(s: Seq<char>)
    requires
        forall|i: int| 0 <= i < s.len() ==> name_char(#[trigger] s[i]),
    ensures
        name_chars(s) == s,
    decreases s.len(),
{
    reveal(Seq::filter);
    if s.len() > 0 {
        lemma_all_named(s.drop_last());
        assert(name_chars(s) =~= s);
    } else {
        assert(name_chars(s) =~= s);
    }
}

proof fn lemma_none_named(s: Seq<char>)
    requires
        forall|i: int| 0 <= i < s.len() ==> !name_char(#[trigger] s[i]),
    ensures
        name_chars(s).len() == 0,
    decreases s.len(),
{
    reveal(Seq::filter);
    if s.len() > 0 {
        lemma_none_named(s.drop_last());
    }
}

/// An object is found wherever an opening brace stands before a closing one.
pub proof fn law_objects_are_found(text: Seq<char>, i: int, j: int)
    requires
        0 <= i < j < text.len(),
        text[i] == '{',
        text[j] == '}',
    ensures
        braced(text) is Some,
{
    reveal_strlit("{");
    reveal_strlit("}");
    lemma_find(text, "{"@);
    lemma_rfind(text, "}"@);
    assert(text.subrange(i, i + 1) =~= "{"@);
    assert(matches_at(text, "{"@, i));
    assert(text.subrange(j, j + 1) =~= "}"@);
    assert(matches_at(text, "}"@, j));
}

/// A number without the mark of seconds behind it says nothing of the time: it is passed
/// over with what stands before it.
pub proof fn law_other_numbers_are_passed_over(
    before: Seq<char>,
    n: nat,
    next: char,
    rest: Seq<char>,
)
    requires
        forall|i: int| 0 <= i < before.len() ==> !is_digit(#[trigger] before[i]),
        !is_digit(next),
        next != 's',
        next != '秒',
    ensures
        marked_seconds(before + decimal_nat(n) + seq![next] + rest) == marked_seconds(rest),
{
    let digits = CharClass::OneOf(DIGITS);
    lemma_digit_class();
    let number = decimal_nat(n);
    let tail = number + seq![next] + rest;
    lemma_all_digits(n);
    assert(before + number + seq![next] + rest =~= before + tail);
    lemma_skip_text(before, tail);
    assert forall|i: int| 0 <= i < number.len() implies digits.holds(#[trigger] tail[i]) by {
        assert(tail[i] == number[i]);
        assert(is_digit(number[i]));
    }
    assert(tail[number.len() as int] == next);
    lemma_run_len_is(tail, digits, true, number.len());
    assert(tail.skip(number.len() as int) =~= seq![next] + rest);
    lemma_skip_text(seq![next], rest);
}

/// A number at the very end counts as seconds where the mark of seconds stands before it,
/// and not where it does not.
pub proof fn law_a_number_at_the_end_counts(before: Seq<char>, n: nat)
    requires
        forall|i: int| 0 <= i < before.len() ==> !is_digit(#[trigger] before[i]),
        n <= u64::MAX,
    ensures
        before.contains('s') || before.contains('秒') ==> record_seconds(before + decimal_nat(n))
            == (if n == 0 {
            1
        } else if n > 120 {
            120
        } else {
            n
        }),
        !before.contains('s') && !before.contains('秒') ==> record_seconds(
            before + decimal_nat(n),
        ) == 10,
{
    reveal_strlit("s");
    reveal_strlit("秒");
    let digits = CharClass::OneOf(DIGITS);
    lemma_digit_class();
    let number = decimal_nat(n);
    let whole = before + number;
    law_decimal_reads_back(n, u64::MAX as nat);
    lemma_all_digits(n);
    lemma_skip_text(before, number);
    assert forall|i: int| 0 <= i < number.len() implies digits.holds(#[trigger] number[i]) by {
        assert(is_digit(number[i]));
    }
    lemma_run_len_is(number, digits, true, number.len());
    let behind = number.skip(number.len() as int);
    assert(behind.len() == 0);
    assert(marked_seconds(behind) is None);
    assert(marked_seconds(number) == marked_seconds(behind));
    assert forall|i: int| whole.len() - number.len() <= i < whole.len() implies digits.holds(
        #[trigger] whole[i],
    ) by {
        assert(whole[i] == number[i - before.len()]);
        assert(is_digit(number[i - before.len()]));
    }
    if before.len() > 0 {
        assert(whole[before.len() - 1] == before[before.len() - 1]);
    }
    lemma_tail_len_is(whole, digits, number.len());
    assert(whole.skip(whole.len() - number.len()) =~= number);
    assert("s"@[0] == 's' && "秒"@[0] == '秒');
    if before.contains('s') {
        let k = choose|k: int| 0 <= k < before.len() && before[k] == 's';
        assert(whole.subrange(k, k + 1) =~= "s"@);
        assert(matches_at(whole, "s"@, k));
    }
    if before.contains('秒') {
        let k = choose|k: int| 0 <= k < before.len() && before[k] == '秒';
        assert(whole.subrange(k, k + 1) =~= "秒"@);
        assert(matches_at(whole, "秒"@, k));
    }
    if contains_text(whole, "s"@) {
        let k = choose|k: int| matches_at(whole, "s"@, k);
        assert(whole.subrange(k, k + 1)[0] == 's');
        if k >= before.len() {
            assert(is_digit(number[k - before.len()]));
        } else {
            assert(before[k] == 's');
        }
    }
    if contains_text(whole, "秒"@) {
        let k = choose|k: int| matches_at(whole, "秒"@, k);
        assert(whole.subrange(k, k + 1)[0] == '秒');
        if k >= before.len() {
            assert(is_digit(number[k - before.len()]));
        } else {
            assert(before[k] == '秒');
        }
    }
}

/// In English what is searched for is the text between the word and the next comma, full
/// stop, semicolon or line end.
pub proof fn law_english_terms_stand_behind_the_word(
    before: Seq<char>,
    term: Seq<char>,
    rest: Seq<char>,
    lower: Seq<char>,
)
    requires
        !contains_text(before, "search"@),
        forall|i: int| 0 <= i < term.len() ==> !"，,。;；\n"@.contains(#[trigger] term[i]),
        rest.len() > 0 ==> "，,。;；\n"@.contains(rest[0]),
        !(before + "search"@ + term + rest).contains('搜'),
        !contains_text(before + "search"@ + term + rest, "今日热点相关新闻"@),
        contains_text(lower, "search"@),
    ensures
        search_query(before + "search"@ + term + rest, lower) == trimmed(term),
{
    let text = before + "search"@ + term + rest;
    lemma_chinese_ways_fail(text);
    lemma_english_term(before, term, rest);
    assert(wants_search(text, lower));
}

/// Where no way of asking in Chinese stands, none of them gives anything.
proof fn lemma_chinese_ways_fail(text: Seq<char>)
    requires
        !text.contains('搜'),
    ensures
        topic_after(text, "任意搜索一些"@).len() == 0,
        topic_after(text, "随便搜索一些"@).len() == 0,
        topic_after(text, "搜索一些"@).len() == 0,
        topic_after(text, "去搜一些"@).len() == 0,
        topic_after(text, "搜一些"@).len() == 0,
        term_after(text, "搜索"@).len() == 0,
{
    reveal_strlit("搜索");
    reveal_strlit("任意搜索一些");
    reveal_strlit("随便搜索一些");
    reveal_strlit("搜索一些");
    reveal_strlit("去搜一些");
    reveal_strlit("搜一些");
    lemma_not_found(text, "任意搜索一些"@, '搜', 2);
    lemma_not_found(text, "随便搜索一些"@, '搜', 2);
    lemma_not_found(text, "搜索一些"@, '搜', 0);
    lemma_not_found(text, "去搜一些"@, '搜', 1);
    lemma_not_found(text, "搜一些"@, '搜', 0);
    lemma_not_found(text, "搜索"@, '搜', 0);
}

/// The word begins with a letter that is not in it again.
proof fn lemma_english_word()
    ensures
        "search"@.len() > 0,
        forall|i: int| 1 <= i < "search"@.len() ==> #[trigger] "search"@[i] != "search"@[0],
{
    reveal_strlit("search");
}

/// The term behind the English word.
proof fn lemma_english_term(before: Seq<char>, term: Seq<char>, rest: Seq<char>)
    requires
        !contains_text(before, "search"@),
        forall|i: int| 0 <= i < term.len() ==> !TERM_ENDS@.contains(#[trigger] term[i]),
        rest.len() > 0 ==> TERM_ENDS@.contains(rest[0]),
    ensures
        term_after(before + "search"@ + term + rest, "search"@) == trimmed(term),
{
    lemma_english_word();
    let tail = term + rest;
    assert(before + "search"@ + term + rest =~= before + "search"@ + tail);
    lemma_first_found(before, "search"@, tail);
    let stop = CharClass::OneOf(TERM_ENDS);
    assert forall|i: int| 0 <= i < term.len() implies !stop.holds(#[trigger] tail[i]) by {
        assert(tail[i] == term[i]);
    }
    if rest.len() > 0 {
        assert(tail[term.len() as int] == rest[0]);
    }
    lemma_run_len_is(tail, stop, false, term.len());
    assert(before_class(tail, stop) =~= term);
}

/// A pattern with a character that the text does not have is not found in it.
proof fn lemma_not_found(text: Seq<char>, pat: Seq<char>, c: char, at: int)
    requires
        !text.contains(c),
        0 <= at < pat.len(),
        pat[at] == c,
    ensures
        find(text, pat) is None,
{
    lemma_find(text, pat);
    if let Some(k) = find(text, pat) {
        assert(text.subrange(k, k + pat.len())[at] == c);
        assert(text[k + at] == c);
    }
}

/// What is asked for in other words comes before what stands behind the bare word: the
/// longer ways of asking are tried first.
pub proof fn law_longer_ways_of_asking_come_first(text: Seq<char>, lower: Seq<char>)
    requires
        contains_text(text, "搜"@) || contains_text(text, "搜索"@) || contains_text(
            lower,
            "search"@,
        ),
        !contains_text(text, "今日热点相关新闻"@),
    ensures
        ({
            let query = search_query(text, lower);
            let a = topic_after(text, "任意搜索一些"@);
            let b = topic_after(text, "随便搜索一些"@);
            let c = topic_after(text, "搜索一些"@);
            let d = topic_after(text, "去搜一些"@);
            let e = topic_after(text, "搜一些"@);
            let f = term_after(text, "搜索"@);
            &&& a.len() > 0 ==> query == a
            &&& a.len() == 0 && b.len() > 0 ==> query == b
            &&& a.len() == 0 && b.len() == 0 && c.len() > 0 ==> query == c
            &&& a.len() == 0 && b.len() == 0 && c.len() == 0 && d.len() > 0 ==> query == d
            &&& a.len() == 0 && b.len() == 0 && c.len() == 0 && d.len() == 0 && e.len() > 0
                ==> query == e
            &&& a.len() == 0 && b.len() == 0 && c.len() == 0 && d.len() == 0 && e.len() == 0
                && f.len() > 0 ==> query == f
        }),
{
}

/// An address may be typed in quotes of either kind, with white space around them.
pub proof fn law_quotes_are_taken_off(bare: Seq<char>)
    requires
        bare.len() > 0,
        !white(bare[0]) && bare[0] != '"' && bare[0] != '\'',
        !white(bare.last()) && bare.last() != '"' && bare.last() != '\'',
    ensures
        unquoted(bare) == bare,
        unquoted(" \""@ + bare + "\" "@) == bare,
        unquoted("'"@ + bare + "'"@) == bare,
{
    reveal_strlit("\"");
    reveal_strlit("'");
    reveal_strlit(" \"");
    reveal_strlit("\" ");
    let double = CharClass::OneOf("\"");
    let single = CharClass::OneOf("'");
    assert("\""@[0] == '"' && "'"@[0] == '\'');
    assert forall|c: char| #[trigger] double.holds(c) == (c == '"') by {}
    assert forall|c: char| #[trigger] single.holds(c) == (c == '\'') by {}
    lemma_trim_of_fixed(bare, CharClass::White);
    lemma_trim_of_fixed(bare, double);
    lemma_trim_of_fixed(bare, single);
    lemma_trimmed_between(" \""@.take(1), "\""@ + bare + "\""@, "\" "@.skip(1), CharClass::White);
    assert(" \""@.take(1) + ("\""@ + bare + "\""@) + "\" "@.skip(1) =~= " \""@ + bare + "\" "@);
    lemma_trimmed_between("\""@, bare, "\""@, double);
    let quoted = "'"@ + bare + "'"@;
    assert(quoted[0] == '\'' && quoted.last() == '\'');
    lemma_trim_of_fixed(quoted, CharClass::White);
    lemma_trim_of_fixed(quoted, double);
    lemma_trimmed_between("'"@, bare, "'"@, single);
}

/// What lies in the class is taken off at both ends.
proof fn lemma_trimmed_between(a: Seq<char>, s: Seq<char>, b: Seq<char>, class: CharClass)
    requires
        s.len() > 0,
        !class.holds(s[0]),
        !class.holds(s.last()),
        forall|i: int| 0 <= i < a.len() ==> class.holds(#[trigger] a[i]),
        forall|i: int| 0 <= i < b.len() ==> class.holds(#[trigger] b[i]),
    ensures
        trim_of(a + s + b, class) == s,
{
    let whole = a + s + b;
    assert forall|i: int| 0 <= i < a.len() implies class.holds(#[trigger] whole[i]) by {
        assert(whole[i] == a[i]);
    }
    assert(whole[a.len() as int] == s[0]);
    lemma_run_len_is(whole, class, true, a.len());
    let head = whole.skip(a.len() as int);
    assert(head =~= s + b);
    assert forall|i: int| head.len() - b.len() <= i < head.len() implies class.holds(
        #[trigger] head[i],
    ) by {
        assert(head[i] == b[i - s.len()]);
    }
    assert(head[s.len() - 1] == s.last());
    lemma_tail_len_is(head, class, b.len());
    assert(head.take(head.len() - b.len()) =~= s);
}

/// A topic ends with its clause where no word for the next step stands in it.
pub proof fn law_topics_end_with_the_clause(
    before: Seq<char>,
    topic: Seq<char>,
    rest: Seq<char>,
    lower: Seq<char>,
)
    requires
        !contains_text(before, "搜一些"@),
        forall|i: int| 0 <= i < topic.len() ==> !"，,。;；\n"@.contains(#[trigger] topic[i]),
        !contains_text(topic, "然后"@),
        trimmed(topic).len() > 0,
        rest.len() > 0 ==> "，,。;；\n"@.contains(rest[0]),
        !contains_text(before + "搜一些"@ + topic + rest, "今日热点相关新闻"@),
        !contains_text(before + "搜一些"@ + topic + rest, "搜索"@),
        !contains_text(before + "搜一些"@ + topic + rest, "去搜一些"@),
    ensures
        search_query(before + "搜一些"@ + topic + rest, lower) == trimmed(topic),
{
    let text = before + "搜一些"@ + topic + rest;
    lemma_other_ways_fail(text);
    lemma_clause_topic(before, topic, rest);
    lemma_asked_for(before, topic + rest);
    assert(before + "搜一些"@ + (topic + rest) =~= text);
    assert(wants_search(text, lower));
}

/// Where the word for searching does not stand, the ways of asking with it give nothing.
proof fn lemma_other_ways_fail(text: Seq<char>)
    requires
        !contains_text(text, "搜索"@),
        !contains_text(text, "去搜一些"@),
    ensures
        topic_after(text, "任意搜索一些"@).len() == 0,
        topic_after(text, "随便搜索一些"@).len() == 0,
        topic_after(text, "搜索一些"@).len() == 0,
        topic_after(text, "去搜一些"@).len() == 0,
{
    reveal_strlit("搜索");
    reveal_strlit("任意搜索一些");
    reveal_strlit("随便搜索一些");
    reveal_strlit("搜索一些");
    lemma_no_search(text, "任意搜索一些"@, 2);
    lemma_no_search(text, "随便搜索一些"@, 2);
    lemma_no_search(text, "搜索一些"@, 0);
    lemma_find(text, "去搜一些"@);
    if let Some(k) = find(text, "去搜一些"@) {
        assert(matches_at(text, "去搜一些"@, k));
    }
}

/// The word for asking stands in what is asked.
proof fn lemma_asked_for(before: Seq<char>, tail: Seq<char>)
    ensures
        contains_text(before + "搜一些"@ + tail, "搜"@),
{
    reveal_strlit("搜");
    reveal_strlit("搜一些");
    let text = before + "搜一些"@ + tail;
    let n = before.len() as int;
    assert(text.subrange(n, n + 1) =~= "搜"@);
    assert(matches_at(text, "搜"@, n));
}

/// The topic behind the marker, up to the end of its clause.
proof fn lemma_clause_topic(before: Seq<char>, topic: Seq<char>, rest: Seq<char>)
    requires
        !contains_text(before, "搜一些"@),
        forall|i: int| 0 <= i < topic.len() ==> !TERM_ENDS@.contains(#[trigger] topic[i]),
        !contains_text(topic, "然后"@),
        rest.len() > 0 ==> TERM_ENDS@.contains(rest[0]),
    ensures
        topic_after(before + "搜一些"@ + topic + rest, "搜一些"@) == trimmed(topic),
{
    reveal_strlit("搜一些");
    let tail = topic + rest;
    assert(before + "搜一些"@ + topic + rest =~= before + "搜一些"@ + tail);
    lemma_first_found(before, "搜一些"@, tail);
    let stop = CharClass::OneOf(TERM_ENDS);
    assert forall|i: int| 0 <= i < topic.len() implies !stop.holds(#[trigger] tail[i]) by {
        assert(tail[i] == topic[i]);
    }
    if rest.len() > 0 {
        assert(tail[topic.len() as int] == rest[0]);
    }
    lemma_run_len_is(tail, stop, false, topic.len());
    assert(before_class(tail, stop) =~= topic);
    lemma_find(topic, "然后"@);
    if let Some(k) = find(topic, "然后"@) {
        assert(matches_at(topic, "然后"@, k));
    }
}

} // verus!
