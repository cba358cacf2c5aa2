//! What the browser is to do: as the model plans it, or by the wording of the
//! request.

use vstd::prelude::*;
use vstd::slice::slice_subrange;
use crate::chat::{chat_completions_url, chat_url, plain_request, plain_request_body, ChatRequest};
use crate::json::{Json, JsonTree};
use crate::json_text::{compact_json, compact_text, ordered};
use crate::redact::{redact_sensitive_text, redacted};
use crate::request::{
    current_user_request, names_desktop, names_video, user_request, wants_fullscreen, wants_login,
    wants_recording, wants_screenshot, wording, Wording,
};
use crate::search::{contains_text, law_texts_hold_their_parts};
use crate::target::{
    braced, extract_json_object, page_url, record_seconds, recording_time, search_query,
};
use crate::text::{chars, is_blank, lemma_views_push, lowered, string, trimmed, views};

verus! {

/// What the browser is to do.
pub struct BrowserToolPlan {
    pub start_url: String,
    pub search_query: String,
    pub click_target: String,
    pub screenshot: bool,
    pub record_seconds: u64,
    pub login_required: bool,
    pub fullscreen: bool,
    pub wait_for_user_seconds: u64,
    pub action_plan: Vec<String>,
    pub save_location: String,
}

/// What the browser is to do.
#[verifier::ext_equal]
pub struct PlanView {
    pub start_url: Seq<char>,
    pub search_query: Seq<char>,
    pub click_target: Seq<char>,
    pub screenshot: bool,
    pub record_seconds: nat,
    pub login_required: bool,
    pub fullscreen: bool,
    pub wait_for_user_seconds: nat,
    pub action_plan: Seq<Seq<char>>,
    pub save_location: Seq<char>,
}

impl View for BrowserToolPlan {
    type V = PlanView;

    open spec fn view(&self) -> PlanView {
        PlanView {
            start_url: self.start_url@,
            search_query: self.search_query@,
            click_target: self.click_target@,
            screenshot: self.screenshot,
            record_seconds: self.record_seconds as nat,
            login_required: self.login_required,
            fullscreen: self.fullscreen,
            wait_for_user_seconds: self.wait_for_user_seconds as nat,
            action_plan: views(self.action_plan@),
            save_location: self.save_location@,
        }
    }
}

/// What the wording asks to click on.
pub open spec fn wanted_click(text: Seq<char>, lower: Seq<char>) -> Seq<char> {
    if names_video(text, lower) {
        "video"@
    } else if contains_text(text, "商品"@) || contains_text(lower, "product"@) {
        "product"@
    } else if contains_text(text, "文章"@) || contains_text(lower, "article"@) {
        "article"@
    } else if contains_text(text, "链接"@) || contains_text(lower, "link"@) || contains_text(
        text,
        "任意"@,
    ) || contains_text(lower, "any"@) {
        "link"@
    } else {
        seq![]
    }
}

/// One step, where the condition holds.
pub open spec fn step_if(condition: bool, step: Seq<char>) -> Seq<Seq<char>> {
    if condition {
        seq![step]
    } else {
        seq![]
    }
}

/// The steps that the wording asks for, in their order. `asked` and `asked_lower`
/// are the wording of what the user asks for in it.
pub open spec fn wanted_steps(
    text: Seq<char>,
    lower: Seq<char>,
    asked: Seq<char>,
    asked_lower: Seq<char>,
) -> Seq<Seq<char>> {
    let video = names_video(text, lower);
    let recording = wants_recording(asked, asked_lower);
    step_if(wants_login(text, lower), "assist_login"@) + step_if(
        search_query(text, lower).len() > 0,
        "search"@,
    ) + step_if(video, "click_video"@) + step_if(
        !video && (contains_text(text, "进入"@) || contains_text(text, "点击"@)),
        "click_result"@,
    ) + step_if(wants_fullscreen(text, lower), "fullscreen"@) + step_if(recording, "record_video"@)
        + step_if(!recording && wants_screenshot(asked, asked_lower), "screenshot"@) + step_if(
        contains_text(text, "保存"@) || names_desktop(text, lower),
        "save_file"@,
    )
}

/// How long the wording asks to record: not at all unless it asks for a recording.
pub open spec fn wanted_seconds(
    lower: Seq<char>,
    asked: Seq<char>,
    asked_lower: Seq<char>,
) -> nat {
    if wants_recording(asked, asked_lower) {
        record_seconds(lower)
    } else {
        0
    }
}

/// The plan that the wording makes.
pub open spec fn wanted_plan(
    text: Seq<char>,
    lower: Seq<char>,
    asked: Seq<char>,
    asked_lower: Seq<char>,
) -> PlanView {
    PlanView {
        start_url: match page_url(text, lower) {
            Some(url) => url,
            None => seq![],
        },
        search_query: search_query(text, lower),
        click_target: wanted_click(text, lower),
        screenshot: wants_screenshot(asked, asked_lower),
        record_seconds: wanted_seconds(lower, asked, asked_lower),
        login_required: wants_login(text, lower),
        fullscreen: wants_fullscreen(text, lower),
        wait_for_user_seconds: if wants_login(text, lower) {
            45
        } else {
            0
        },
        action_plan: wanted_steps(text, lower, asked, asked_lower),
        save_location: if names_desktop(text, lower) {
            "desktop"@
        } else {
            seq![]
        },
    }
}

fn put_step(steps: &mut Vec<String>, condition: bool, step: &str)
    ensures
        views(final(steps)@) == views(old(steps)@) + step_if(condition, step@),
{
    broadcast use lemma_views_push;

    if condition {
        steps.push(step.to_string());
    }
    assert(views(steps@) =~= views(old(steps)@) + step_if(condition, step@));
}

impl Wording {
    /// What the wording asks to click on.
    pub fn wanted_click(&self) -> (r: String)
        ensures
            r@ == wanted_click(self.text@, self.lower@),
    {
        if self.names_video() {
            "video".to_string()
        } else if self.has("商品") || self.has_lower("product") {
            "product".to_string()
        } else if self.has("文章") || self.has_lower("article") {
            "article".to_string()
        } else if self.has("链接") || self.has_lower("link") || self.has("任意") || self.has_lower(
            "any",
        ) {
            "link".to_string()
        } else {
            String::new()
        }
    }

    /// The steps that the wording asks for.
    pub fn wanted_steps(&self, asked: &Wording) -> (r: Vec<String>)
        ensures
            views(r@) == wanted_steps(self.text@, self.lower@, asked.text@, asked.lower@),
    {
        let video = self.names_video();
        let recording = asked.wants_recording();
        let mut steps: Vec<String> = Vec::new();
        assert(views(steps@) =~= seq![]);
        let ghost none: Seq<Seq<char>> = seq![];
        put_step(&mut steps, self.wants_login(), "assist_login");
        assert(none + step_if(wants_login(self.text@, self.lower@), "assist_login"@) =~= step_if(
            wants_login(self.text@, self.lower@),
            "assist_login"@,
        ));
        put_step(&mut steps, !self.search_query().as_str().is_empty(), "search");
        put_step(&mut steps, video, "click_video");
        put_step(&mut steps, !video && (self.has("进入") || self.has("点击")), "click_result");
        put_step(&mut steps, self.wants_fullscreen(), "fullscreen");
        put_step(&mut steps, recording, "record_video");
        put_step(&mut steps, !recording && asked.wants_screenshot(), "screenshot");
        put_step(&mut steps, self.has("保存") || self.names_desktop(), "save_file");
        steps
    }

    /// How long the wording asks to record.
    pub fn wanted_seconds(&self, asked: &Wording) -> (r: u64)
        ensures
            r == wanted_seconds(self.lower@, asked.text@, asked.lower@),
    {
        if asked.wants_recording() {
            recording_time(self.lower.as_slice())
        } else {
            0
        }
    }

    /// The plan that the wording makes. `asked` is the wording of what the user asks
    /// for in it.
    pub fn wanted_plan(&self, asked: &Wording) -> (r: BrowserToolPlan)
        ensures
            r@ == wanted_plan(self.text@, self.lower@, asked.text@, asked.lower@),
    {
        let start_url = match self.page_url() {
            Some(url) => url,
            None => String::new(),
        };
        let login = self.wants_login();
        let wait: u64 = if login {
            45
        } else {
            0
        };
        BrowserToolPlan {
            start_url,
            search_query: self.search_query(),
            click_target: self.wanted_click(),
            screenshot: asked.wants_screenshot(),
            record_seconds: self.wanted_seconds(asked),
            login_required: login,
            fullscreen: self.wants_fullscreen(),
            wait_for_user_seconds: wait,
            action_plan: self.wanted_steps(asked),
            save_location: if self.names_desktop() {
                "desktop".to_string()
            } else {
                String::new()
            },
        }
    }
}

/// The plan that a request makes by its wording.
pub open spec fn request_plan(request: Seq<char>) -> PlanView {
    wanted_plan(
        request,
        lowered(request),
        user_request(request),
        lowered(user_request(request)),
    )
}

/// Makes a plan by the wording of a request.
pub fn infer_browser_plan_from_request(request: &str) -> (r: BrowserToolPlan)
    ensures
        r@ == request_plan(request@),
{
    let asked = current_user_request(request);
    wording(request).wanted_plan(&wording(asked.as_str()))
}

/// The steps that a request asks for by its wording.
pub fn infer_browser_action_plan(request: &str) -> (r: Vec<String>)
    ensures
        views(r@) == request_plan(request@).action_plan,
{
    let asked = current_user_request(request);
    wording(request).wanted_steps(&wording(asked.as_str()))
}

/// What the model is told to do with a request.
pub const PLANNING_PROMPT: &'static str = "你是桌面浏览器自动化 function-calling 路由器。请只输出一个 JSON 对象，不要 Markdown，不要解释。\n\
你要把用户自然语言转换为可执行浏览器工具计划，字段必须使用下列 schema：\n\
{\n\
\"start_url\": string,              // http/https URL；站点名请推断常见官方网址\n\
\"search_query\": string,           // 页面内搜索词；没有则空字符串\n\
\"click_target\": string,           // video/product/article/link/search_result/login/button 等；没有则空字符串\n\
\"screenshot\": boolean,            // 是否截图\n\
\"record_seconds\": number,         // 是否录制视频，0 表示不录制\n\
\"login_required\": boolean,        // 用户是否要求登录\n\
\"fullscreen\": boolean,            // 是否要求放大、最大化、全屏或影院模式\n\
\"wait_for_user_seconds\": number,  // 登录/验证码/手动操作等待秒数；无需等待则 0\n\
\"action_plan\": string[],          // 顺序动作，如 open, assist_login, search, click_video, fullscreen, record_video, screenshot, save_file\n\
\"save_location\": \"desktop\" | \"workspace\"\n\
}\n\
规则：\n\
- 不要编造账号密码字段，不要输出用户密码。\n\
- 如果用户说“搜一些/搜索一些”，search_query 填后面的主题词。\n\
- 如果用户要求进入任意视频，click_target 填 video。\n\
- 如果用户要求录制 7s/10s，record_seconds 填对应数字。\n\
用户请求：";

/// The request to the model for a plan. Without a key there is none.
pub fn start_browser_plan(api_key: &str, base_url: &str, model: &str, request: &str) -> (r: Result<
    ChatRequest,
    String,
>)
    ensures
        r is Err == (trimmed(api_key@).len() == 0),
        r matches Err(e) ==> e@ == "API key is empty"@,
        r matches Ok(sent) ==> {
            &&& sent.url@ == chat_url(base_url@)
            &&& sent.body@ == compact_text(
                ordered(plain_request(model@, PLANNING_PROMPT@ + request@)),
            )
        },
{
    if is_blank(api_key) {
        return Err("API key is empty".to_string());
    }
    let mut prompt = PLANNING_PROMPT.to_string();
    prompt.append(request);
    match compact_json(&plain_request_body(model, prompt.as_str())) {
        Ok(body) => Ok(ChatRequest { url: chat_completions_url(base_url), body }),
        Err(e) => Err(e),
    }
}

/// The complaint about an answer whose status is no success.
pub fn planning_http_error(status: &str) -> (r: String)
    ensures
        r@ == "planning HTTP status "@ + status@,
{
    let mut out = "planning HTTP status ".to_string();
    out.append(status);
    out
}

/// What the model says in its first answer.
pub open spec fn reply_content(reply: JsonTree) -> Option<Seq<char>> {
    match reply.list_at("choices"@) {
        Some(choices) if choices.len() > 0 => match choices[0].field("message"@) {
            Some(message) => message.text_at("content"@),
            None => None,
        },
        _ => None,
    }
}

/// The first characters of a text, at most so many.
pub open spec fn at_most(s: Seq<char>, n: nat) -> Seq<char> {
    if s.len() > n {
        s.take(n as int)
    } else {
        s
    }
}

/// The JSON object with the plan in an answer of the model, or what is wrong with
/// the answer.
pub open spec fn plan_text(reply: JsonTree) -> Result<Seq<char>, Seq<char>> {
    match reply_content(reply) {
        Some(content) => match braced(content) {
            Some(object) => Ok(object),
            None => Err("planning response is not JSON: "@ + at_most(content, 160)),
        },
        None => Err("planning response has no message.content"@),
    }
}

fn find_content(reply: &Json) -> (r: Option<&String>)
    ensures
        match r {
            Some(s) => reply_content(reply@) == Some(s@),
            None => reply_content(reply@) is None,
        },
{
    match reply.get_list("choices") {
        Some(choices) => {
            if choices.len() == 0 {
                return None;
            }
            match choices[0].get("message") {
                Some(message) => message.get_text("content"),
                None => None,
            }
        },
        None => None,
    }
}

/// Finds the JSON object with the plan in an answer of the model.
pub fn read_browser_plan(reply: &Json) -> (r: Result<String, String>)
    ensures
        match (r, plan_text(reply@)) {
            (Ok(s), Ok(object)) => s@ == object,
            (Err(e), Err(complaint)) => e@ == complaint,
            _ => false,
        },
{
    match find_content(reply) {
        Some(content) => match extract_json_object(content.as_str()) {
            Some(object) => Ok(object),
            None => {
                let all = chars(content.as_str());
                let n: usize = if all.len() > 160 {
                    160
                } else {
                    all.len()
                };
                let front = slice_subrange(all.as_slice(), 0, n);
                assert(front@ =~= at_most(content@, 160));
                let mut out = "planning response is not JSON: ".to_string();
                out.append(string(front).as_str());
                Err(out)
            },
        },
        None => Err("planning response has no message.content".to_string()),
    }
}

/// The plan to carry out and what the user is told of it: the model's, or where
/// there is none, the one that the wording of the request makes.
pub open spec fn settled_plan(
    request: Seq<char>,
    planned: Result<PlanView, Seq<char>>,
) -> (PlanView, Seq<char>) {
    match planned {
        Ok(plan) => (plan, "[tool] 模型已返回工具计划，准备执行。\r\n"@),
        Err(e) => (
            request_plan(request),
            "[tool] 模型工具计划不可用，使用本地兜底计划。原因："@ + redacted(e) + "\r\n"@,
        ),
    }
}

/// The plan to carry out and what the user is told of it.
pub fn settle_plan(request: &str, planned: Result<BrowserToolPlan, String>) -> (r: (
    BrowserToolPlan,
    String,
))
    ensures
        (r.0@, r.1@) == settled_plan(
            request@,
            match planned {
                Ok(plan) => Ok(plan@),
                Err(e) => Err(e@),
            },
        ),
{
    match planned {
        Ok(plan) => (plan, "[tool] 模型已返回工具计划，准备执行。\r\n".to_string()),
        Err(e) => {
            let mut notice = "[tool] 模型工具计划不可用，使用本地兜底计划。原因：".to_string();
            notice.append(redact_sensitive_text(e.as_str()).as_str());
            notice.append("\r\n");
            (infer_browser_plan_from_request(request), notice)
        },
    }
}

/// What the wording asks to click on goes by its words: a video before a product, a product
/// before an article, an article before a link.
pub proof fn law_clicks_go_by_the_words(text: Seq<char>, lower: Seq<char>)
    ensures
        names_video(text, lower) ==> wanted_click(text, lower) == "video"@,
        !names_video(text, lower) ==> {
            let product = contains_text(text, "商品"@) || contains_text(lower, "product"@);
            let article = contains_text(text, "文章"@) || contains_text(lower, "article"@);
            &&& contains_text(text, "商品"@) ==> wanted_click(text, lower) == "product"@
            &&& contains_text(lower, "product"@) ==> wanted_click(text, lower) == "product"@
            &&& contains_text(text, "文章"@) && !product ==> wanted_click(text, lower)
                == "article"@
            &&& contains_text(lower, "article"@) && !product ==> wanted_click(text, lower)
                == "article"@
            &&& contains_text(text, "链接"@) && !product && !article ==> wanted_click(text, lower)
                == "link"@
            &&& contains_text(lower, "link"@) && !product && !article ==> wanted_click(text, lower)
                == "link"@
            &&& contains_text(text, "任意"@) && !product && !article ==> wanted_click(text, lower)
                == "link"@
            &&& contains_text(lower, "any"@) && !product && !article ==> wanted_click(text, lower)
                == "link"@
            &&& wanted_click(text, lower).len() > 0 ==> product || article || contains_text(
                text,
                "链接"@,
            ) || contains_text(lower, "link"@) || contains_text(text, "任意"@) || contains_text(
                lower,
                "any"@,
            )
        },
{
}

/// The place of a step among the others.
pub open spec fn step_place(step: Seq<char>) -> int {
    if step == "assist_login"@ {
        0
    } else if step == "search"@ {
        1
    } else if step == "click_video"@ {
        2
    } else if step == "click_result"@ {
        3
    } else if step == "fullscreen"@ {
        4
    } else if step == "record_video"@ {
        5
    } else if step == "screenshot"@ {
        6
    } else if step == "save_file"@ {
        7
    } else {
        8
    }
}

/// Each step of a list comes after those that have their place before it, and all have
/// their place before the given one.
#[verifier::opaque]
pub open spec fn in_order(list: Seq<Seq<char>>, n: int) -> bool {
    &&& forall|i: int| 0 <= i < list.len() ==> step_place(#[trigger] list[i]) < n
    &&& forall|i: int, j: int|
        0 <= i < j < list.len() ==> step_place(#[trigger] list[i]) < step_place(#[trigger] list[j])
}

/// Each step is taken where the wording asks for it, and only there; none is taken twice,
/// and each comes after those that have to be done before it.
pub proof fn law_steps_are_those_asked_for(
    text: Seq<char>,
    lower: Seq<char>,
    asked: Seq<char>,
    asked_lower: Seq<char>,
)
    ensures
        ({
            let steps = wanted_steps(text, lower, asked, asked_lower);
            &&& steps.contains("assist_login"@) == wants_login(text, lower)
            &&& steps.contains("search"@) == (search_query(text, lower).len() > 0)
            &&& steps.contains("click_video"@) == names_video(text, lower)
            &&& steps.contains("click_result"@) == (!names_video(text, lower) && (contains_text(
                text,
                "进入"@,
            ) || contains_text(text, "点击"@)))
            &&& steps.contains("fullscreen"@) == wants_fullscreen(text, lower)
            &&& steps.contains("record_video"@) == wants_recording(asked, asked_lower)
            &&& steps.contains("screenshot"@) == (wants_screenshot(asked, asked_lower)
                && !wants_recording(asked, asked_lower))
            &&& steps.contains("save_file"@) == (contains_text(text, "保存"@) || names_desktop(
                text,
                lower,
            ))
            &&& in_order(steps, 8)
        }),
{
    let video = names_video(text, lower);
    let recording = wants_recording(asked, asked_lower);
    lemma_places();
    let s0: Seq<Seq<char>> = seq![];
    assert(in_order(s0, 0)) by {
        reveal(in_order);
    }
    let s1 = step_if(wants_login(text, lower), "assist_login"@);
    assert(s0 + s1 =~= s1);
    lemma_next_step(s0, wants_login(text, lower), "assist_login"@);
    let s2 = s1 + step_if(search_query(text, lower).len() > 0, "search"@);
    lemma_next_step(s1, search_query(text, lower).len() > 0, "search"@);
    let s3 = s2 + step_if(video, "click_video"@);
    lemma_next_step(s2, video, "click_video"@);
    let click = !video && (contains_text(text, "进入"@) || contains_text(text, "点击"@));
    let s4 = s3 + step_if(click, "click_result"@);
    lemma_next_step(s3, click, "click_result"@);
    let s5 = s4 + step_if(wants_fullscreen(text, lower), "fullscreen"@);
    lemma_next_step(s4, wants_fullscreen(text, lower), "fullscreen"@);
    let s6 = s5 + step_if(recording, "record_video"@);
    lemma_next_step(s5, recording, "record_video"@);
    let picture = !recording && wants_screenshot(asked, asked_lower);
    let s7 = s6 + step_if(picture, "screenshot"@);
    lemma_next_step(s6, picture, "screenshot"@);
    let save = contains_text(text, "保存"@) || names_desktop(text, lower);
    lemma_next_step(s7, save, "save_file"@);
}

/// Every step has a place of its own.
proof fn lemma_places()
    ensures
        step_place("assist_login"@) == 0,
        step_place("search"@) == 1,
        step_place("click_video"@) == 2,
        step_place("click_result"@) == 3,
        step_place("fullscreen"@) == 4,
        step_place("record_video"@) == 5,
        step_place("screenshot"@) == 6,
        step_place("save_file"@) == 7,
{
    reveal_strlit("assist_login");
    reveal_strlit("search");
    reveal_strlit("click_video");
    reveal_strlit("click_result");
    reveal_strlit("fullscreen");
    reveal_strlit("record_video");
    reveal_strlit("screenshot");
    reveal_strlit("save_file");
    assert("search"@[0] == 's' && "search"@[1] == 'e');
    assert("save_file"@[1] == 'a');
    assert("screenshot"@[1] == 'c');
    assert("click_video"@[6] == 'v' && "click_result"@[6] == 'r');
    assert("assist_login"@[0] == 'a' && "click_video"@[0] == 'c' && "click_result"@[0] == 'c'
        && "fullscreen"@[0] == 'f' && "record_video"@[0] == 'r' && "screenshot"@[0] == 's'
        && "save_file"@[0] == 's');
}

/// A step that is put behind those before it keeps their order.
proof fn lemma_next_step(list: Seq<Seq<char>>, condition: bool, step: Seq<char>)
    requires
        in_order(list, step_place(step)),
    ensures
        in_order(list + step_if(condition, step), step_place(step) + 1),
        !list.contains(step),
        forall|s: Seq<char>| #[trigger]
            (list + step_if(condition, step)).contains(s) == (list.contains(s) || (condition && s
                == step)),
{
    reveal(in_order);
    let all = list + step_if(condition, step);
    assert forall|s: Seq<char>| #[trigger]
        all.contains(s) == (list.contains(s) || (condition && s == step)) by {
        if list.contains(s) {
            let i = choose|i: int| 0 <= i < list.len() && list[i] == s;
            assert(all[i] == s);
        }
        if condition && s == step {
            assert(all[list.len() as int] == s);
        }
        if all.contains(s) {
            let i = choose|i: int| 0 <= i < all.len() && all[i] == s;
            if i < list.len() {
                assert(list[i] == s);
            }
        }
    }
    assert forall|i: int, j: int| 0 <= i < j < all.len() implies step_place(#[trigger] all[i])
        < step_place(#[trigger] all[j]) by {
        assert(all[i] == list[i]);
        if j < list.len() {
            assert(all[j] == list[j]);
        }
    }
}

/// A plan by the wording does what the wording asks for: it records only where a recording
/// is asked for, it waits for the user only where they are to sign in, and the file goes
/// to the desktop only where that is named.
pub proof fn law_plans_follow_the_wording(
    text: Seq<char>,
    lower: Seq<char>,
    asked: Seq<char>,
    asked_lower: Seq<char>,
)
    ensures
        ({
            let plan = wanted_plan(text, lower, asked, asked_lower);
            &&& match page_url(text, lower) {
                Some(url) => plan.start_url == url,
                None => plan.start_url.len() == 0,
            }
            &&& plan.search_query == search_query(text, lower)
            &&& plan.click_target == wanted_click(text, lower)
            &&& plan.screenshot == wants_screenshot(asked, asked_lower)
            &&& wants_recording(asked, asked_lower) ==> plan.record_seconds == record_seconds(lower)
            &&& !wants_recording(asked, asked_lower) ==> plan.record_seconds == 0
            &&& plan.login_required == wants_login(text, lower)
            &&& wants_login(text, lower) ==> plan.wait_for_user_seconds == 45
            &&& !wants_login(text, lower) ==> plan.wait_for_user_seconds == 0
            &&& plan.fullscreen == wants_fullscreen(text, lower)
            &&& plan.action_plan == wanted_steps(text, lower, asked, asked_lower)
            &&& names_desktop(text, lower) ==> plan.save_location == "desktop"@
            &&& !names_desktop(text, lower) ==> plan.save_location.len() == 0
        }),
{
}

/// A request is read with its whole wording, except that a picture or a recording is asked
/// for only by what the user says in it.
pub proof fn law_pictures_go_by_what_the_user_says(request: Seq<char>)
    ensures
        ({
            let plan = request_plan(request);
            let said = user_request(request);
            &&& plan.screenshot == wants_screenshot(said, lowered(said))
            &&& plan.record_seconds > 0 ==> wants_recording(said, lowered(said))
            &&& plan.search_query == search_query(request, lowered(request))
            &&& plan.click_target == wanted_click(request, lowered(request))
            &&& plan.login_required == wants_login(request, lowered(request))
            &&& plan.fullscreen == wants_fullscreen(request, lowered(request))
        }),
{
}

/// The plan is the JSON object in the content of the first message of the answer; an answer
/// without a content or without an object in it is complained about, with at most the
/// first hundred and sixty characters of it.
pub proof fn law_plans_are_found_in_the_first_message(
    reply: JsonTree,
    choices: Seq<JsonTree>,
    message: JsonTree,
    content: Seq<char>,
)
    requires
        reply.field("choices"@) == Some(JsonTree::List(choices)),
    ensures
        choices.len() > 0 && choices[0].field("message"@) == Some(message) && message.field(
            "content"@,
        ) == Some(JsonTree::Text(content)) ==> {
            &&& braced(content) is Some ==> plan_text(reply) == Ok::<Seq<char>, Seq<char>>(
                braced(content)->0,
            )
            &&& braced(content) is None && content.len() <= 160 ==> plan_text(reply) == Err::<
                Seq<char>,
                Seq<char>,
            >("planning response is not JSON: "@ + content)
            &&& braced(content) is None && content.len() > 160 ==> plan_text(reply) == Err::<
                Seq<char>,
                Seq<char>,
            >("planning response is not JSON: "@ + content.subrange(0, 160))
        },
        choices.len() == 0 || choices[0].field("message"@) is None ==> plan_text(reply) == Err::<
            Seq<char>,
            Seq<char>,
        >("planning response has no message.content"@),
{
    if content.len() > 160 {
        assert(content.take(160) =~= content.subrange(0, 160));
    }
}

/// The model's plan is carried out as it is; where there is none, the wording's is, and the
/// user is told why, without passwords.
pub proof fn law_the_plan_of_the_model_comes_first(
    request: Seq<char>,
    planned: Result<PlanView, Seq<char>>,
)
    ensures
        planned matches Ok(plan) ==> settled_plan(request, planned).0 == plan,
        planned matches Err(e) ==> {
            &&& settled_plan(request, planned).0 == wanted_plan(
                request,
                lowered(request),
                user_request(request),
                lowered(user_request(request)),
            )
            &&& contains_text(settled_plan(request, planned).1, redacted(e))
        },
{
    if let Err(e) = planned {
        law_texts_hold_their_parts(
            "[tool] 模型工具计划不可用，使用本地兜底计划。原因："@,
            redacted(e),
            "\r\n"@,
        );
    }
}

} // verus!
