//! What the user asks for, recognised by its wording.
//!
//! The wording is a text together with the same text in small letters. The
//! functions over a `Wording` decide; those over a `&str` make the wording first.

use vstd::prelude::*;
use crate::search::{contains_text, has, lemma_rfind, matches_at, rfind, rsplit_once, split_last};
use crate::text::{
    chars, lemma_trim_of, lowercase, lowered, run_len, string, trim, trimmed, CharClass,
};

verus! {

/// A text and the same text in small letters.
pub struct Wording {
    pub text: Vec<char>,
    pub lower: Vec<char>,
}

/// Takes the wording of a text.
pub fn wording(text: &str) -> (r: Wording)
    ensures
        r.text@ == text@,
        r.lower@ == lowered(text@),
{
    let lower = lowercase(text);
    Wording { text: chars(text), lower: chars(lower.as_str()) }
}

/// What the user asks for in a prompt: what follows the last heading of the
/// user's question, or all of the prompt.
pub open spec fn user_request(prompt: Seq<char>) -> Seq<char> {
    match split_last(prompt, "当前用户问题："@) {
        Some((_, tail)) => trimmed(tail),
        None => match split_last(prompt, "Current user request:"@) {
            Some((_, tail)) => trimmed(tail),
            None => trimmed(prompt),
        },
    }
}

/// What the user asks for in a prompt.
pub fn current_user_request(prompt: &str) -> (r: String)
    ensures
        r@ == user_request(prompt@),
{
    let all = chars(prompt);
    match rsplit_once(all.as_slice(), "当前用户问题：") {
        Some((_, tail)) => string(trim(tail)),
        None => match rsplit_once(all.as_slice(), "Current user request:") {
            Some((_, tail)) => string(trim(tail)),
            None => string(trim(all.as_slice())),
        },
    }
}

/// What follows the last occurrence of a pattern, without the white space around it,
/// does not hold the pattern.
proof fn lemma_tail_lacks(s: Seq<char>, pat: Seq<char>)
    requires
        pat.len() > 0,
    ensures
        match split_last(s, pat) {
            Some((_, tail)) => !contains_text(trimmed(tail), pat),
            None => !contains_text(trimmed(s), pat),
        },
{
    lemma_rfind(s, pat);
    let (rest, from) = match split_last(s, pat) {
        Some((_, tail)) => (tail, rfind(s, pat)->0 + pat.len()),
        None => (s, 0),
    };
    lemma_trim_of(rest, CharClass::White);
    let t = trimmed(rest);
    let a = run_len(rest, CharClass::White, true) as int;
    if contains_text(t, pat) {
        let i = choose|i: int| matches_at(t, pat, i);
        let at = from + a + i;
        assert(s.subrange(at, at + pat.len()) =~= t.subrange(i, i + pat.len()));
        assert(matches_at(s, pat, at));
    }
}

/// What the user asks for holds no heading of the user's question any more; the heading
/// in English may be left where the other one is there.
pub proof fn law_requests_hold_no_heading(prompt: Seq<char>)
    ensures
        !contains_text(user_request(prompt), "当前用户问题："@),
        !contains_text(prompt, "当前用户问题："@) ==> !contains_text(
            user_request(prompt),
            "Current user request:"@,
        ),
{
    let first = "当前用户问题："@;
    let second = "Current user request:"@;
    reveal_strlit("当前用户问题：");
    reveal_strlit("Current user request:");
    assert(first.len() == 7);
    assert(second.len() == 21);
    lemma_tail_lacks(prompt, first);
    lemma_tail_lacks(prompt, second);
    lemma_rfind(prompt, first);
    if let Some((_, tail)) = split_last(prompt, first) {
        assert(matches_at(prompt, first, rfind(prompt, first)->0));
    } else if let Some((_, tail)) = split_last(prompt, second) {
        let from = rfind(prompt, second)->0 + second.len();
        lemma_rfind(prompt, second);
        lemma_trim_of(tail, CharClass::White);
        let t = trimmed(tail);
        let a = run_len(tail, CharClass::White, true) as int;
        if contains_text(t, first) {
            let i = choose|i: int| matches_at(t, first, i);
            let at = from + a + i;
            assert(prompt.subrange(at, at + first.len()) =~= t.subrange(i, i + first.len()));
            assert(matches_at(prompt, first, at));
        }
    }
}

/// The wording names the video site.
pub open spec fn names_video_site(text: Seq<char>, lower: Seq<char>) -> bool {
    ||| contains_text(lower, "bilibili"@)
    ||| contains_text(lower, "b站"@)
    ||| contains_text(text, "B站"@)
    ||| contains_text(text, "b站"@)
    ||| contains_text(text, "哔哩哔哩"@)
}

/// The wording names the search site.
pub open spec fn names_search_site(text: Seq<char>, lower: Seq<char>) -> bool {
    contains_text(lower, "baidu"@) || contains_text(text, "百度"@)
}

/// The wording names a page: by its address or as a site.
pub open spec fn names_page(text: Seq<char>, lower: Seq<char>) -> bool {
    ||| contains_text(lower, "http://"@)
    ||| contains_text(lower, "https://"@)
    ||| names_video_site(text, lower)
    ||| names_search_site(text, lower)
}

/// The wording asks for a screenshot of a page.
pub open spec fn wants_screenshot(text: Seq<char>, lower: Seq<char>) -> bool {
    &&& {
        ||| contains_text(text, "截图"@)
        ||| contains_text(text, "截屏"@)
        ||| contains_text(text, "截一张"@)
        ||| contains_text(text, "截取"@)
        ||| contains_text(text, "图片"@)
        ||| contains_text(lower, "screenshot"@)
    }
    &&& names_page(text, lower)
}

/// The wording asks for a recording of a page.
pub open spec fn wants_recording(text: Seq<char>, lower: Seq<char>) -> bool {
    &&& {
        ||| contains_text(text, "录制"@)
        ||| contains_text(text, "录屏"@)
        ||| contains_text(text, "短视频"@)
        ||| contains_text(text, "视频"@)
        ||| contains_text(lower, "record"@)
        ||| contains_text(lower, "video"@)
    }
    &&& names_page(text, lower)
}

/// The wording asks for something that a tool has to do.
pub open spec fn wants_tool(text: Seq<char>, lower: Seq<char>) -> bool {
    ||| contains_text(text, "截图"@)
    ||| contains_text(text, "截屏"@)
    ||| contains_text(text, "截一张"@)
    ||| contains_text(text, "截取"@)
    ||| contains_text(text, "浏览器"@)
    ||| contains_text(text, "打开网页"@)
    ||| contains_text(text, "官网"@)
    ||| contains_text(text, "图片"@)
    ||| contains_text(text, "文件"@)
    ||| contains_text(text, "目录"@)
    ||| contains_text(text, "读取"@)
    ||| contains_text(text, "保存"@)
    ||| contains_text(text, "下载"@)
    ||| contains_text(text, "录制"@)
    ||| contains_text(text, "录屏"@)
    ||| contains_text(text, "短视频"@)
    ||| contains_text(lower, "screenshot"@)
    ||| contains_text(lower, "browser"@)
    ||| contains_text(lower, "record"@)
    ||| contains_text(lower, "video"@)
    ||| contains_text(lower, "http://"@)
    ||| contains_text(lower, "https://"@)
    ||| contains_text(lower, "filesystem"@)
}

/// The wording speaks of a video.
pub open spec fn names_video(text: Seq<char>, lower: Seq<char>) -> bool {
    contains_text(text, "视频"@) || contains_text(lower, "video"@)
}

/// The wording asks to open a video.
pub open spec fn wants_video_click(text: Seq<char>, lower: Seq<char>) -> bool {
    &&& {
        ||| contains_text(text, "点击"@)
        ||| contains_text(text, "打开"@)
        ||| contains_text(text, "进入"@)
        ||| contains_text(lower, "click"@)
    }
    &&& names_video(text, lower)
}

/// The wording asks to go down the page.
pub open spec fn wants_scroll(text: Seq<char>, lower: Seq<char>) -> bool {
    ||| contains_text(text, "下方"@)
    ||| contains_text(text, "往下"@)
    ||| contains_text(text, "向下"@)
    ||| contains_text(text, "下面"@)
    ||| contains_text(lower, "scroll"@)
    ||| contains_text(lower, "below"@)
    ||| contains_text(lower, "down"@)
}

/// The wording asks for a login.
pub open spec fn wants_login(text: Seq<char>, lower: Seq<char>) -> bool {
    ||| contains_text(text, "登录"@)
    ||| contains_text(lower, "login"@)
    ||| contains_text(lower, "sign in"@)
}

/// The wording asks for a large picture.
pub open spec fn wants_fullscreen(text: Seq<char>, lower: Seq<char>) -> bool {
    ||| contains_text(text, "放大"@)
    ||| contains_text(text, "全屏"@)
    ||| contains_text(text, "最大化"@)
    ||| contains_text(lower, "fullscreen"@)
    ||| contains_text(lower, "maximize"@)
}

/// The wording speaks of the desktop.
pub open spec fn names_desktop(text: Seq<char>, lower: Seq<char>) -> bool {
    contains_text(text, "桌面"@) || contains_text(lower, "desktop"@)
}

impl Wording {
    pub fn has(&self, pat: &str) -> (r: bool)
        ensures
            r == contains_text(self.text@, pat@),
    {
        has(self.text.as_slice(), pat)
    }

    pub fn has_lower(&self, pat: &str) -> (r: bool)
        ensures
            r == contains_text(self.lower@, pat@),
    {
        has(self.lower.as_slice(), pat)
    }

    pub fn names_video_site(&self) -> (r: bool)
        ensures
            r == names_video_site(self.text@, self.lower@),
    {
        self.has_lower("bilibili") || self.has_lower("b站") || self.has("B站") || self.has("b站")
            || self.has("哔哩哔哩")
    }

    pub fn names_search_site(&self) -> (r: bool)
        ensures
            r == names_search_site(self.text@, self.lower@),
    {
        self.has_lower("baidu") || self.has("百度")
    }

    fn names_page(&self) -> (r: bool)
        ensures
            r == names_page(self.text@, self.lower@),
    {
        self.has_lower("http://") || self.has_lower("https://") || self.names_video_site()
            || self.names_search_site()
    }

    pub fn wants_screenshot(&self) -> (r: bool)
        ensures
            r == wants_screenshot(self.text@, self.lower@),
    {
        (self.has("截图") || self.has("截屏") || self.has("截一张") || self.has("截取")
            || self.has("图片") || self.has_lower("screenshot")) && self.names_page()
    }

    pub fn wants_recording(&self) -> (r: bool)
        ensures
            r == wants_recording(self.text@, self.lower@),
    {
        (self.has("录制") || self.has("录屏") || self.has("短视频") || self.has("视频")
            || self.has_lower("record") || self.has_lower("video")) && self.names_page()
    }

    pub fn wants_tool(&self) -> (r: bool)
        ensures
            r == wants_tool(self.text@, self.lower@),
    {
        self.has("截图") || self.has("截屏") || self.has("截一张") || self.has("截取")
            || self.has("浏览器") || self.has("打开网页") || self.has("官网") || self.has("图片")
            || self.has("文件") || self.has("目录") || self.has("读取") || self.has("保存")
            || self.has("下载") || self.has("录制") || self.has("录屏") || self.has("短视频")
            || self.has_lower("screenshot") || self.has_lower("browser") || self.has_lower("record")
            || self.has_lower("video") || self.has_lower("http://") || self.has_lower("https://")
            || self.has_lower("filesystem")
    }

    pub fn names_video(&self) -> (r: bool)
        ensures
            r == names_video(self.text@, self.lower@),
    {
        self.has("视频") || self.has_lower("video")
    }

    pub fn wants_video_click(&self) -> (r: bool)
        ensures
            r == wants_video_click(self.text@, self.lower@),
    {
        (self.has("点击") || self.has("打开") || self.has("进入") || self.has_lower("click"))
            && self.names_video()
    }

    pub fn wants_scroll(&self) -> (r: bool)
        ensures
            r == wants_scroll(self.text@, self.lower@),
    {
        self.has("下方") || self.has("往下") || self.has("向下") || self.has("下面")
            || self.has_lower("scroll") || self.has_lower("below") || self.has_lower("down")
    }

    pub fn wants_login(&self) -> (r: bool)
        ensures
            r == wants_login(self.text@, self.lower@),
    {
        self.has("登录") || self.has_lower("login") || self.has_lower("sign in")
    }

    pub fn wants_fullscreen(&self) -> (r: bool)
        ensures
            r == wants_fullscreen(self.text@, self.lower@),
    {
        self.has("放大") || self.has("全屏") || self.has("最大化") || self.has_lower("fullscreen")
            || self.has_lower("maximize")
    }

    pub fn names_desktop(&self) -> (r: bool)
        ensures
            r == names_desktop(self.text@, self.lower@),
    {
        self.has("桌面") || self.has_lower("desktop")
    }
}

/// Tells whether a prompt asks for a screenshot of a page.
pub fn looks_like_web_screenshot_request(prompt: &str) -> (r: bool)
    ensures
        r == wants_screenshot(user_request(prompt@), lowered(user_request(prompt@))),
{
    wording(current_user_request(prompt).as_str()).wants_screenshot()
}

/// Tells whether a prompt asks for a recording of a page.
pub fn looks_like_web_recording_request(prompt: &str) -> (r: bool)
    ensures
        r == wants_recording(user_request(prompt@), lowered(user_request(prompt@))),
{
    wording(current_user_request(prompt).as_str()).wants_recording()
}

/// Tells whether a prompt asks for a screenshot or a recording of a page.
pub fn looks_like_web_media_request(prompt: &str) -> (r: bool)
    ensures
        r == ({
            let text = user_request(prompt@);
            wants_screenshot(text, lowered(text)) || wants_recording(text, lowered(text))
        }),
{
    looks_like_web_screenshot_request(prompt) || looks_like_web_recording_request(prompt)
}

/// Tells whether a prompt asks for something that a tool has to do.
pub fn looks_like_mcp_tool_request(prompt: &str) -> (r: bool)
    ensures
        r == wants_tool(user_request(prompt@), lowered(user_request(prompt@))),
{
    wording(current_user_request(prompt).as_str()).wants_tool()
}

/// Tells whether a request asks to open a video.
pub fn should_click_video_before_screenshot(request: &str) -> (r: bool)
    ensures
        r == wants_video_click(request@, lowered(request@)),
{
    wording(request).wants_video_click()
}

/// Tells whether a request asks to go down the page.
pub fn should_scroll_before_click(request: &str) -> (r: bool)
    ensures
        r == wants_scroll(request@, lowered(request@)),
{
    wording(request).wants_scroll()
}

/// Tells whether a request asks for a login.
pub fn should_prepare_login(request: &str) -> (r: bool)
    ensures
        r == wants_login(request@, lowered(request@)),
{
    wording(request).wants_login()
}

/// Tells whether a request asks for a large picture.
pub fn should_fullscreen_video(request: &str) -> (r: bool)
    ensures
        r == wants_fullscreen(request@, lowered(request@)),
{
    wording(request).wants_fullscreen()
}

/// Every request for a screenshot or a recording of a page is one for a tool, but
/// for a recording that is asked for by the word for video alone.
pub proof fn law_media_requests_want_a_tool(text: Seq<char>, lower: Seq<char>)
    ensures
        wants_screenshot(text, lower) ==> wants_tool(text, lower),
        wants_recording(text, lower) ==> wants_tool(text, lower) || contains_text(text, "视频"@),
{
}

/// Logging in is asked for by each of these words, and by no others.
pub proof fn law_login_is_asked_for_by_its_words(text: Seq<char>, lower: Seq<char>)
    ensures
        contains_text(text, "登录"@) ==> wants_login(text, lower),
        contains_text(lower, "login"@) ==> wants_login(text, lower),
        contains_text(lower, "sign in"@) ==> wants_login(text, lower),
        !wants_login(text, lower) || {
            ||| contains_text(text, "登录"@)
            ||| contains_text(lower, "login"@)
            ||| contains_text(lower, "sign in"@)
        },
{
}

/// The whole screen is asked for by each of these words, and by no others.
pub proof fn law_fullscreen_is_asked_for_by_its_words(text: Seq<char>, lower: Seq<char>)
    ensures
        contains_text(text, "放大"@) ==> wants_fullscreen(text, lower),
        contains_text(text, "全屏"@) ==> wants_fullscreen(text, lower),
        contains_text(text, "最大化"@) ==> wants_fullscreen(text, lower),
        contains_text(lower, "fullscreen"@) ==> wants_fullscreen(text, lower),
        contains_text(lower, "maximize"@) ==> wants_fullscreen(text, lower),
        !wants_fullscreen(text, lower) || {
            ||| contains_text(text, "放大"@)
            ||| contains_text(text, "全屏"@)
            ||| contains_text(text, "最大化"@)
            ||| contains_text(lower, "fullscreen"@)
            ||| contains_text(lower, "maximize"@)
        },
{
}

/// Scrolling is asked for by each of these words, and by no others.
pub proof fn law_scrolling_is_asked_for_by_its_words(text: Seq<char>, lower: Seq<char>)
    ensures
        contains_text(text, "下方"@) ==> wants_scroll(text, lower),
        contains_text(text, "往下"@) ==> wants_scroll(text, lower),
        contains_text(text, "向下"@) ==> wants_scroll(text, lower),
        contains_text(text, "下面"@) ==> wants_scroll(text, lower),
        contains_text(lower, "scroll"@) ==> wants_scroll(text, lower),
        contains_text(lower, "below"@) ==> wants_scroll(text, lower),
        contains_text(lower, "down"@) ==> wants_scroll(text, lower),
        !wants_scroll(text, lower) || {
            ||| contains_text(text, "下方"@)
            ||| contains_text(text, "往下"@)
            ||| contains_text(text, "向下"@)
            ||| contains_text(text, "下面"@)
            ||| contains_text(lower, "scroll"@)
            ||| contains_text(lower, "below"@)
            ||| contains_text(lower, "down"@)
        },
{
}

/// The desktop is named by each of these words, and by no others.
pub proof fn law_the_desktop_is_named_by_its_words(text: Seq<char>, lower: Seq<char>)
    ensures
        contains_text(text, "桌面"@) ==> names_desktop(text, lower),
        contains_text(lower, "desktop"@) ==> names_desktop(text, lower),
        !names_desktop(text, lower) || {
            ||| contains_text(text, "桌面"@)
            ||| contains_text(lower, "desktop"@)
        },
{
}

/// A video is named by each of these words, and by no others.
pub proof fn law_videos_are_named_by_their_words(text: Seq<char>, lower: Seq<char>)
    ensures
        contains_text(text, "视频"@) ==> names_video(text, lower),
        contains_text(lower, "video"@) ==> names_video(text, lower),
        !names_video(text, lower) || {
            ||| contains_text(text, "视频"@)
            ||| contains_text(lower, "video"@)
        },
{
}

/// The video site is named by each of these words, and by no others.
pub proof fn law_the_video_site_is_named_by_its_words(text: Seq<char>, lower: Seq<char>)
    ensures
        contains_text(lower, "bilibili"@) ==> names_video_site(text, lower),
        contains_text(lower, "b站"@) ==> names_video_site(text, lower),
        contains_text(text, "B站"@) ==> names_video_site(text, lower),
        contains_text(text, "b站"@) ==> names_video_site(text, lower),
        contains_text(text, "哔哩哔哩"@) ==> names_video_site(text, lower),
        !names_video_site(text, lower) || {
            ||| contains_text(lower, "bilibili"@)
            ||| contains_text(lower, "b站"@)
            ||| contains_text(text, "B站"@)
            ||| contains_text(text, "b站"@)
            ||| contains_text(text, "哔哩哔哩"@)
        },
{
}

/// The search site is named by each of these words, and by no others.
pub proof fn law_the_search_site_is_named_by_its_words(text: Seq<char>, lower: Seq<char>)
    ensures
        contains_text(lower, "baidu"@) ==> names_search_site(text, lower),
        contains_text(text, "百度"@) ==> names_search_site(text, lower),
        !names_search_site(text, lower) || {
            ||| contains_text(lower, "baidu"@)
            ||| contains_text(text, "百度"@)
        },
{
}

/// A tool is asked for by each of these words, and by no others.
pub proof fn law_tools_are_asked_for_by_their_words(text: Seq<char>, lower: Seq<char>)
    ensures
        contains_text(text, "截图"@) ==> wants_tool(text, lower),
        contains_text(text, "截屏"@) ==> wants_tool(text, lower),
        contains_text(text, "截一张"@) ==> wants_tool(text, lower),
        contains_text(text, "截取"@) ==> wants_tool(text, lower),
        contains_text(text, "浏览器"@) ==> wants_tool(text, lower),
        contains_text(text, "打开网页"@) ==> wants_tool(text, lower),
        contains_text(text, "官网"@) ==> wants_tool(text, lower),
        contains_text(text, "图片"@) ==> wants_tool(text, lower),
        contains_text(text, "文件"@) ==> wants_tool(text, lower),
        contains_text(text, "目录"@) ==> wants_tool(text, lower),
        contains_text(text, "读取"@) ==> wants_tool(text, lower),
        contains_text(text, "保存"@) ==> wants_tool(text, lower),
        contains_text(text, "下载"@) ==> wants_tool(text, lower),
        contains_text(text, "录制"@) ==> wants_tool(text, lower),
        contains_text(text, "录屏"@) ==> wants_tool(text, lower),
        contains_text(text, "短视频"@) ==> wants_tool(text, lower),
        contains_text(lower, "screenshot"@) ==> wants_tool(text, lower),
        contains_text(lower, "browser"@) ==> wants_tool(text, lower),
        contains_text(lower, "record"@) ==> wants_tool(text, lower),
        contains_text(lower, "video"@) ==> wants_tool(text, lower),
        contains_text(lower, "http://"@) ==> wants_tool(text, lower),
        contains_text(lower, "https://"@) ==> wants_tool(text, lower),
        contains_text(lower, "filesystem"@) ==> wants_tool(text, lower),
        !wants_tool(text, lower) || {
            ||| contains_text(text, "截图"@)
            ||| contains_text(text, "截屏"@)
            ||| contains_text(text, "截一张"@)
            ||| contains_text(text, "截取"@)
            ||| contains_text(text, "浏览器"@)
            ||| contains_text(text, "打开网页"@)
            ||| contains_text(text, "官网"@)
            ||| contains_text(text, "图片"@)
            ||| contains_text(text, "文件"@)
            ||| contains_text(text, "目录"@)
            ||| contains_text(text, "读取"@)
            ||| contains_text(text, "保存"@)
            ||| contains_text(text, "下载"@)
            ||| contains_text(text, "录制"@)
            ||| contains_text(text, "录屏"@)
            ||| contains_text(text, "短视频"@)
            ||| contains_text(lower, "screenshot"@)
            ||| contains_text(lower, "browser"@)
            ||| contains_text(lower, "record"@)
            ||| contains_text(lower, "video"@)
            ||| contains_text(lower, "http://"@)
            ||| contains_text(lower, "https://"@)
            ||| contains_text(lower, "filesystem"@)
        },
{
}

/// A picture of a page is asked for where one of these words stands together with an address
/// or the name of a site, and nowhere else.
pub proof fn law_pictures_are_asked_for_of_pages(text: Seq<char>, lower: Seq<char>)
    ensures
        contains_text(text, "截图"@) && contains_text(lower, "https://"@) ==> wants_screenshot(
            text,
            lower,
        ),
        contains_text(text, "截屏"@) && contains_text(lower, "https://"@) ==> wants_screenshot(
            text,
            lower,
        ),
        contains_text(text, "截一张"@) && contains_text(lower, "https://"@) ==> wants_screenshot(
            text,
            lower,
        ),
        contains_text(text, "截取"@) && contains_text(lower, "https://"@) ==> wants_screenshot(
            text,
            lower,
        ),
        contains_text(text, "图片"@) && contains_text(lower, "https://"@) ==> wants_screenshot(
            text,
            lower,
        ),
        contains_text(lower, "screenshot"@) && contains_text(lower, "https://"@) ==> wants_screenshot(
            text,
            lower,
        ),
        contains_text(text, "截图"@) && contains_text(lower, "http://"@) ==> wants_screenshot(
            text,
            lower,
        ),
        contains_text(text, "截图"@) && contains_text(lower, "https://"@) ==> wants_screenshot(
            text,
            lower,
        ),
        contains_text(text, "截图"@) && contains_text(lower, "bilibili"@) ==> wants_screenshot(
            text,
            lower,
        ),
        contains_text(text, "截图"@) && contains_text(lower, "b站"@) ==> wants_screenshot(
            text,
            lower,
        ),
        contains_text(text, "截图"@) && contains_text(text, "B站"@) ==> wants_screenshot(
            text,
            lower,
        ),
        contains_text(text, "截图"@) && contains_text(text, "b站"@) ==> wants_screenshot(
            text,
            lower,
        ),
        contains_text(text, "截图"@) && contains_text(text, "哔哩哔哩"@) ==> wants_screenshot(
            text,
            lower,
        ),
        contains_text(text, "截图"@) && contains_text(lower, "baidu"@) ==> wants_screenshot(
            text,
            lower,
        ),
        contains_text(text, "截图"@) && contains_text(text, "百度"@) ==> wants_screenshot(
            text,
            lower,
        ),
        wants_screenshot(text, lower) ==> ({
            ||| contains_text(text, "截图"@)
            ||| contains_text(text, "截屏"@)
            ||| contains_text(text, "截一张"@)
            ||| contains_text(text, "截取"@)
            ||| contains_text(text, "图片"@)
            ||| contains_text(lower, "screenshot"@)
        }) && ({
            ||| contains_text(lower, "http://"@)
            ||| contains_text(lower, "https://"@)
            ||| contains_text(lower, "bilibili"@)
            ||| contains_text(lower, "b站"@)
            ||| contains_text(text, "B站"@)
            ||| contains_text(text, "b站"@)
            ||| contains_text(text, "哔哩哔哩"@)
            ||| contains_text(lower, "baidu"@)
            ||| contains_text(text, "百度"@)
        }),
{
}

/// A video of a page is asked for where one of these words stands together with an address
/// or the name of a site, and nowhere else.
pub proof fn law_videos_are_asked_for_of_pages(text: Seq<char>, lower: Seq<char>)
    ensures
        contains_text(text, "录制"@) && contains_text(lower, "https://"@) ==> wants_recording(
            text,
            lower,
        ),
        contains_text(text, "录屏"@) && contains_text(lower, "https://"@) ==> wants_recording(
            text,
            lower,
        ),
        contains_text(text, "短视频"@) && contains_text(lower, "https://"@) ==> wants_recording(
            text,
            lower,
        ),
        contains_text(text, "视频"@) && contains_text(lower, "https://"@) ==> wants_recording(
            text,
            lower,
        ),
        contains_text(lower, "record"@) && contains_text(lower, "https://"@) ==> wants_recording(
            text,
            lower,
        ),
        contains_text(lower, "video"@) && contains_text(lower, "https://"@) ==> wants_recording(
            text,
            lower,
        ),
        contains_text(text, "录制"@) && contains_text(lower, "http://"@) ==> wants_recording(
            text,
            lower,
        ),
        contains_text(text, "录制"@) && contains_text(lower, "https://"@) ==> wants_recording(
            text,
            lower,
        ),
        contains_text(text, "录制"@) && contains_text(lower, "bilibili"@) ==> wants_recording(
            text,
            lower,
        ),
        contains_text(text, "录制"@) && contains_text(lower, "b站"@) ==> wants_recording(
            text,
            lower,
        ),
        contains_text(text, "录制"@) && contains_text(text, "B站"@) ==> wants_recording(
            text,
            lower,
        ),
        contains_text(text, "录制"@) && contains_text(text, "b站"@) ==> wants_recording(
            text,
            lower,
        ),
        contains_text(text, "录制"@) && contains_text(text, "哔哩哔哩"@) ==> wants_recording(
            text,
            lower,
        ),
        contains_text(text, "录制"@) && contains_text(lower, "baidu"@) ==> wants_recording(
            text,
            lower,
        ),
        contains_text(text, "录制"@) && contains_text(text, "百度"@) ==> wants_recording(
            text,
            lower,
        ),
        wants_recording(text, lower) ==> ({
            ||| contains_text(text, "录制"@)
            ||| contains_text(text, "录屏"@)
            ||| contains_text(text, "短视频"@)
            ||| contains_text(text, "视频"@)
            ||| contains_text(lower, "record"@)
            ||| contains_text(lower, "video"@)
        }) && ({
            ||| contains_text(lower, "http://"@)
            ||| contains_text(lower, "https://"@)
            ||| contains_text(lower, "bilibili"@)
            ||| contains_text(lower, "b站"@)
            ||| contains_text(text, "B站"@)
            ||| contains_text(text, "b站"@)
            ||| contains_text(text, "哔哩哔哩"@)
            ||| contains_text(lower, "baidu"@)
            ||| contains_text(text, "百度"@)
        }),
{
}

/// A click on a video is asked for where a word for opening stands together with one for a
/// video, and nowhere else.
pub proof fn law_clicks_are_asked_for_on_videos(text: Seq<char>, lower: Seq<char>)
    ensures
        contains_text(text, "点击"@) && contains_text(text, "视频"@) ==> wants_video_click(
            text,
            lower,
        ),
        contains_text(text, "点击"@) && contains_text(lower, "video"@) ==> wants_video_click(
            text,
            lower,
        ),
        contains_text(text, "打开"@) && contains_text(text, "视频"@) ==> wants_video_click(
            text,
            lower,
        ),
        contains_text(text, "打开"@) && contains_text(lower, "video"@) ==> wants_video_click(
            text,
            lower,
        ),
        contains_text(text, "进入"@) && contains_text(text, "视频"@) ==> wants_video_click(
            text,
            lower,
        ),
        contains_text(text, "进入"@) && contains_text(lower, "video"@) ==> wants_video_click(
            text,
            lower,
        ),
        contains_text(lower, "click"@) && contains_text(text, "视频"@) ==> wants_video_click(
            text,
            lower,
        ),
        contains_text(lower, "click"@) && contains_text(lower, "video"@) ==> wants_video_click(
            text,
            lower,
        ),
        wants_video_click(text, lower) ==> ({
            ||| contains_text(text, "点击"@)
            ||| contains_text(text, "打开"@)
            ||| contains_text(text, "进入"@)
            ||| contains_text(lower, "click"@)
        }) && ({
            ||| contains_text(text, "视频"@)
            ||| contains_text(lower, "video"@)
        }),
{
}

/// What the user asks for is what stands behind the last heading, without the white space
/// around it; without a heading it is the whole prompt.
pub proof fn law_requests_stand_behind_the_heading(before: Seq<char>, tail: Seq<char>)
    requires
        !contains_text(tail, "当前用户问题："@),
    ensures
        user_request(before + "当前用户问题："@ + tail) == trimmed(tail),
        !contains_text(tail, "Current user request:"@) ==> user_request(tail) == trimmed(tail),
        !contains_text(tail, "Current user request:"@) && !contains_text(
            before + "Current user request:"@ + tail,
            "当前用户问题："@,
        ) ==> user_request(before + "Current user request:"@ + tail) == trimmed(tail),
{
    reveal_strlit("当前用户问题：");
    reveal_strlit("Current user request:");
    lemma_last_heading(before, "当前用户问题："@, tail);
    lemma_rfind(tail, "当前用户问题："@);
    lemma_rfind(tail, "Current user request:"@);
    if !contains_text(tail, "Current user request:"@) {
        assert(forall|i: int| 1 <= i < 21 ==> #[trigger] "Current user request:"@[i] != 'C');
        lemma_last_heading(before, "Current user request:"@, tail);
        let whole = before + "Current user request:"@ + tail;
        lemma_rfind(whole, "当前用户问题："@);
        if let Some(k) = rfind(whole, "当前用户问题："@) {
            assert(matches_at(whole, "当前用户问题："@, k));
        }
    }
    if let Some(k) = rfind(tail, "当前用户问题："@) {
        assert(matches_at(tail, "当前用户问题："@, k));
    }
    if let Some(k) = rfind(tail, "Current user request:"@) {
        assert(matches_at(tail, "Current user request:"@, k));
    }
}

/// A heading whose first character is not in it again, and which does not stand in the
/// text behind it, is the last one.
proof fn lemma_last_heading(before: Seq<char>, heading: Seq<char>, tail: Seq<char>)
    requires
        heading.len() > 0,
        forall|i: int| 1 <= i < heading.len() ==> #[trigger] heading[i] != heading[0],
        !contains_text(tail, heading),
    ensures
        split_last(before + heading + tail, heading) == Some((before, tail)),
{
    let s = before + heading + tail;
    let n = before.len() as int;
    lemma_rfind(s, heading);
    assert(s.subrange(n, n + heading.len()) =~= heading);
    assert(matches_at(s, heading, n));
    let k = rfind(s, heading)->0;
    if k > n {
        let found = s.subrange(k, k + heading.len());
        assert(found[0] == heading[0]);
        assert(s[k] == heading[0]);
        if k < n + heading.len() {
            assert(s[k] == heading[k - n]);
        } else {
            let j = k - n - heading.len();
            assert(tail.subrange(j, j + heading.len()) =~= found);
            assert(matches_at(tail, heading, j));
        }
    }
    assert(k == n);
    assert(s.take(n) =~= before);
    assert(s.skip(n + heading.len()) =~= tail);
}

} // verus!
