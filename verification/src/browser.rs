//! A run of the browser that takes a picture or a video of a page.
//!
//! The program asks the model for a plan, makes the directory, writes the script,
//! starts the browser and waits for it. Between these steps the functions here say
//! what is to be done next and what the user is told.

use vstd::prelude::*;
use std::path::PathBuf;
use crate::clock::utc_millis;
use crate::number::{decimal, i64_text, law_decimal_reads_back, u64_text};
use crate::paths::{by_text, default_media_dir, given, media_dir, FilePath, PathView};
use crate::plan::{wanted_seconds, BrowserToolPlan, PlanView};
use crate::request::{
    current_user_request, names_desktop, names_video, user_request, wants_fullscreen, wants_login,
    wants_recording, wants_scroll, wants_video_click, wording, Wording,
};
use crate::script::{bool_chars, bool_text, ScriptValues};
use crate::search::{
    contains_text, ends, law_prefixes_are_taken_away, law_texts_hold_their_parts, lemma_still_held,
    lemma_told, matches_at, starts, strip_prefixes, without_prefixes,
};
use crate::split::{join, joined};
use crate::target::{
    clamp_seconds, complete_start_url, is_url, law_recordings_are_short,
    law_start_addresses_are_web_addresses, name_piece, page_url, record_seconds,
    sanitize_filename_piece, start_url, unquoted, within_limit,
};
use crate::text::{
    ascii_lower, chars, lowered, same_ignoring_case, string, trim, trim_class,
    trim_str, trimmed, views, CharClass,
};

verus! {

/// A picture, or a video where it takes some seconds.
pub open spec fn action_name(seconds: nat) -> Seq<char> {
    if seconds > 0 {
        "录制"@
    } else {
        "截图"@
    }
}

/// A picture, or a video where it takes some seconds.
pub fn action_text(seconds: u64) -> (r: &'static str)
    ensures
        r@ == action_name(seconds as nat),
{
    if seconds > 0 {
        "录制"
    } else {
        "截图"
    }
}

/// What the user asks for in a prompt, how long it asks to record, and what the user
/// is told while the model plans.
pub struct MediaRequest {
    pub request: String,
    pub record_seconds: u64,
    pub notice: String,
}

/// What is said while the model plans.
pub open spec fn planning_notice(seconds: nat) -> Seq<char> {
    "[tool] 正在请求模型生成结构化浏览器"@ + action_name(seconds) + "计划...\r\n"@
}

/// How long a request asks to record.
pub open spec fn requested_seconds(request: Seq<char>) -> nat {
    wanted_seconds(lowered(request), user_request(request), lowered(user_request(request)))
}

/// Begins a run.
pub fn start_browser_media(prompt: &str) -> (r: MediaRequest)
    ensures
        r.request@ == user_request(prompt@),
        r.record_seconds == requested_seconds(user_request(prompt@)),
        r.notice@ == planning_notice(requested_seconds(user_request(prompt@))),
{
    let request = current_user_request(prompt);
    let asked = current_user_request(request.as_str());
    let record_seconds: u64 = wording(request.as_str()).wanted_seconds(&wording(asked.as_str()));
    let mut notice = "[tool] 正在请求模型生成结构化浏览器".to_string();
    notice.append(action_text(record_seconds));
    notice.append("计划...\r\n");
    MediaRequest { request, record_seconds, notice }
}

/// What the browser does in a run.
pub struct MediaJob {
    pub url: String,
    pub search_query: String,
    pub click_target: String,
    pub scroll_before_click: bool,
    pub record_seconds: u64,
    pub login_requested: bool,
    pub fullscreen_requested: bool,
    pub wait_for_user_seconds: u64,
}

/// What the browser does in a run.
#[verifier::ext_equal]
pub struct JobView {
    pub url: Seq<char>,
    pub search_query: Seq<char>,
    pub click_target: Seq<char>,
    pub scroll_before_click: bool,
    pub record_seconds: nat,
    pub login_requested: bool,
    pub fullscreen_requested: bool,
    pub wait_for_user_seconds: nat,
}

impl View for MediaJob {
    type V = JobView;

    open spec fn view(&self) -> JobView {
        JobView {
            url: self.url@,
            search_query: self.search_query@,
            click_target: self.click_target@,
            scroll_before_click: self.scroll_before_click,
            record_seconds: self.record_seconds as nat,
            login_requested: self.login_requested,
            fullscreen_requested: self.fullscreen_requested,
            wait_for_user_seconds: self.wait_for_user_seconds as nat,
        }
    }
}

impl JobView {
    /// There is something to do on the page.
    pub open spec fn automated(self) -> bool {
        self.click_target.len() > 0 || self.search_query.len() > 0
    }
}

/// The address that a run opens: that of the plan, else one that the request gives.
/// `start` and `start_lower` are the wording of the plan's address without its quotes.
pub open spec fn media_url(
    text: Seq<char>,
    lower: Seq<char>,
    start: Seq<char>,
    start_lower: Seq<char>,
) -> Option<Seq<char>> {
    match start_url(start, start_lower) {
        Some(url) => Some(url),
        None => page_url(text, lower),
    }
}

/// What a run clicks on: the plan's target, else a search result where there is a
/// search, else a video where the request asks for one.
pub open spec fn click_target(text: Seq<char>, lower: Seq<char>, plan: PlanView) -> Seq<char> {
    if trimmed(plan.click_target).len() > 0 {
        trimmed(plan.click_target)
    } else if trimmed(plan.search_query).len() > 0 || contains_text(text, "搜索"@) {
        if names_video(text, lower) {
            "video"@
        } else {
            "search_result"@
        }
    } else if wants_video_click(text, lower) {
        "video"@
    } else {
        seq![]
    }
}

/// How long a run waits for the user: as the plan says, within three minutes, else
/// long enough to sign in where that is asked for.
pub open spec fn user_wait(plan: PlanView, login: bool) -> nat {
    if plan.wait_for_user_seconds > 0 {
        within_limit(plan.wait_for_user_seconds, 180)
    } else if login {
        45
    } else {
        0
    }
}

/// How long a run records: as the plan says, within two minutes, else as requested.
pub open spec fn run_seconds(plan: PlanView, requested: nat) -> nat {
    if plan.record_seconds > 0 {
        within_limit(plan.record_seconds, 120)
    } else {
        requested
    }
}

/// What the browser does for a request and its plan, unless no address is given.
pub open spec fn media_job(
    text: Seq<char>,
    lower: Seq<char>,
    start: Seq<char>,
    start_lower: Seq<char>,
    plan: PlanView,
    requested: nat,
) -> Option<JobView> {
    match media_url(text, lower, start, start_lower) {
        Some(url) => {
            let login = plan.login_required || wants_login(text, lower);
            Some(
                JobView {
                    url,
                    search_query: trimmed(plan.search_query),
                    click_target: click_target(text, lower, plan),
                    scroll_before_click: wants_scroll(text, lower),
                    record_seconds: run_seconds(plan, requested),
                    login_requested: login,
                    fullscreen_requested: plan.fullscreen || wants_fullscreen(text, lower),
                    wait_for_user_seconds: user_wait(plan, login),
                },
            )
        },
        None => None,
    }
}

/// What is answered where no address is given.
pub const NO_ADDRESS: &'static str = "没有找到可截图的网址。请提供 http 或 https 开头的网址。";

/// The answer where no address is given.
pub fn no_address() -> (r: (String, i32))
    ensures
        r.0@ == NO_ADDRESS@,
        r.1 == -1,
{
    (NO_ADDRESS.to_string(), -1)
}

impl Wording {
    /// What the browser does for this request and its plan. `start` is the wording
    /// of the plan's address without its quotes.
    pub fn media_job(&self, start: &Wording, plan: &BrowserToolPlan, requested: u64) -> (r: Option<
        MediaJob,
    >)
        ensures
            match r {
                Some(job) => media_job(
                    self.text@,
                    self.lower@,
                    start.text@,
                    start.lower@,
                    plan@,
                    requested as nat,
                ) == Some(job@),
                None => media_job(
                    self.text@,
                    self.lower@,
                    start.text@,
                    start.lower@,
                    plan@,
                    requested as nat,
                ) is None,
            },
    {
        let planned = match complete_start_url(start) {
            Some(url) => Some(url),
            None => self.page_url(),
        };
        let url = match planned {
            Some(url) => url,
            None => {
                return None;
            },
        };
        let search_query = trim_str(plan.search_query.as_str());
        let planned_click = trim_str(plan.click_target.as_str());
        let click_target = if !planned_click.as_str().is_empty() {
            planned_click
        } else if !search_query.as_str().is_empty() || self.has("搜索") {
            if self.names_video() {
                "video".to_string()
            } else {
                "search_result".to_string()
            }
        } else if self.wants_video_click() {
            "video".to_string()
        } else {
            String::new()
        };
        let login = plan.login_required || self.wants_login();
        let wait: u64 = if plan.wait_for_user_seconds > 0 {
            clamp_seconds(plan.wait_for_user_seconds, 180)
        } else if login {
            45
        } else {
            0
        };
        let seconds: u64 = if plan.record_seconds > 0 {
            clamp_seconds(plan.record_seconds, 120)
        } else {
            requested
        };
        Some(
            MediaJob {
                url,
                search_query,
                click_target,
                scroll_before_click: self.wants_scroll(),
                record_seconds: seconds,
                login_requested: login,
                fullscreen_requested: plan.fullscreen || self.wants_fullscreen(),
                wait_for_user_seconds: wait,
            },
        )
    }
}

/// What the browser does for a request and its plan.
pub fn plan_media_job(request: &str, plan: &BrowserToolPlan, requested: u64) -> (r: Option<
    MediaJob,
>)
    ensures
        match r {
            Some(job) => media_job(
                request@,
                lowered(request@),
                unquoted(plan.start_url@),
                lowered(unquoted(plan.start_url@)),
                plan@,
                requested as nat,
            ) == Some(job@),
            None => media_job(
                request@,
                lowered(request@),
                unquoted(plan.start_url@),
                lowered(unquoted(plan.start_url@)),
                plan@,
                requested as nat,
            ) is None,
        },
{
    let all = chars(plan.start_url.as_str());
    let bare = trim_class(
        trim_class(trim(all.as_slice()), CharClass::OneOf("\"")),
        CharClass::OneOf("'"),
    );
    let start = string(bare);
    wording(request).media_job(&wording(start.as_str()), plan, requested)
}

/// A run takes at most two minutes of video and waits at most three minutes for the
/// user, whatever the model plans; it opens a web address, and it takes a video
/// exactly where the plan or the request asks for one.
pub proof fn law_runs_are_bounded(
    text: Seq<char>,
    lower: Seq<char>,
    start: Seq<char>,
    start_lower: Seq<char>,
    plan: PlanView,
    asked: Seq<char>,
    asked_lower: Seq<char>,
)
    ensures
        media_job(
            text,
            lower,
            start,
            start_lower,
            plan,
            wanted_seconds(lower, asked, asked_lower),
        ) matches Some(job) ==> {
            &&& job.record_seconds <= 120
            &&& job.wait_for_user_seconds <= 180
            &&& job.login_requested ==> job.wait_for_user_seconds > 0
            &&& job.record_seconds > 0 <==> (plan.record_seconds > 0 || wanted_seconds(
                lower,
                asked,
                asked_lower,
            ) > 0)
            &&& is_url(job.url)
        },
{
    law_start_addresses_are_web_addresses(text, lower);
    law_start_addresses_are_web_addresses(start, start_lower);
    law_recordings_are_short(lower);
}

/// A text, or another where it is empty.
pub open spec fn or_else(s: Seq<char>, other: Seq<char>) -> Seq<char> {
    if s.len() == 0 {
        other
    } else {
        s
    }
}

fn append_or(out: &mut String, s: &str, other: &str)
    ensures
        final(out)@ == old(out)@ + or_else(s@, other@),
{
    if s.is_empty() {
        out.append(other);
    } else {
        out.append(s);
    }
}

/// What the user is told of the plan.
pub open spec fn plan_notice(job: JobView, plan: PlanView) -> Seq<char> {
    "[tool] 浏览器计划：start_url="@ + job.url + ", search_query="@ + or_else(
        trimmed(plan.search_query),
        "-"@,
    ) + ", click_target="@ + or_else(trimmed(plan.click_target), "-"@) + ", screenshot="@
        + bool_chars(plan.screenshot) + ", save_location="@ + or_else(
        trimmed(plan.save_location),
        "workspace"@,
    ) + ", record_seconds="@ + decimal(job.record_seconds as int) + ", login_required="@
        + bool_chars(plan.login_required) + ", fullscreen="@ + bool_chars(plan.fullscreen)
        + ", wait_for_user_seconds="@ + decimal(plan.wait_for_user_seconds as int) + ", actions="@
        + (if plan.action_plan.len() == 0 {
        "-"@
    } else {
        joined(plan.action_plan, " -> "@)
    }) + "\r\n"@
}

/// What the user is told of the plan.
pub fn tell_plan(job: &MediaJob, plan: &BrowserToolPlan) -> (r: String)
    ensures
        r@ == plan_notice(job@, plan@),
{
    let mut out = "[tool] 浏览器计划：start_url=".to_string();
    out.append(job.url.as_str());
    out.append(", search_query=");
    append_or(&mut out, trim_str(plan.search_query.as_str()).as_str(), "-");
    out.append(", click_target=");
    append_or(&mut out, trim_str(plan.click_target.as_str()).as_str(), "-");
    out.append(", screenshot=");
    out.append(bool_text(plan.screenshot));
    out.append(", save_location=");
    append_or(&mut out, trim_str(plan.save_location.as_str()).as_str(), "workspace");
    out.append(", record_seconds=");
    out.append(u64_text(job.record_seconds).as_str());
    out.append(", login_required=");
    out.append(bool_text(plan.login_required));
    out.append(", fullscreen=");
    out.append(bool_text(plan.fullscreen));
    out.append(", wait_for_user_seconds=");
    out.append(u64_text(plan.wait_for_user_seconds).as_str());
    out.append(", actions=");
    if plan.action_plan.len() == 0 {
        out.append("-");
    } else {
        out.append(join(&plan.action_plan, " -> ").as_str());
    }
    out.append("\r\n");
    out
}

/// The picture or video is to go to the desktop.
pub open spec fn wants_desktop(text: Seq<char>, lower: Seq<char>, plan: Option<PlanView>) -> bool {
    (match plan {
        Some(p) => p.save_location.map_values(|c: char| ascii_lower(c)) == "desktop"@,
        None => false,
    }) || names_desktop(text, lower)
}

/// Where the picture or video goes: to the desktop if that is asked for and there is
/// one, else to the configured directory, else to one in the workspace.
pub open spec fn output_dir(
    text: Seq<char>,
    lower: Seq<char>,
    plan: Option<PlanView>,
    desktop: Option<PathBuf>,
    configured: Option<PathBuf>,
    workspace: PathView,
) -> PathView {
    match desktop {
        Some(dir) if wants_desktop(text, lower, plan) => given(dir),
        _ => media_dir(configured, workspace),
    }
}

/// The view of a plan, where there is one.
pub open spec fn plan_view(plan: Option<&BrowserToolPlan>) -> Option<PlanView> {
    match plan {
        Some(p) => Some(p@),
        None => None,
    }
}

impl Wording {
    /// Where the picture or video of this request goes, by what the system has for
    /// the desktop.
    pub fn output_dir(
        &self,
        plan: Option<&BrowserToolPlan>,
        desktop: Option<PathBuf>,
        configured: Option<PathBuf>,
        workspace: FilePath,
    ) -> (r: FilePath)
        ensures
            r@ == output_dir(
                self.text@,
                self.lower@,
                plan_view(plan),
                desktop,
                configured,
                workspace@,
            ),
    {
        let planned = match plan {
            Some(p) => same_ignoring_case(p.save_location.as_str(), "desktop"),
            None => false,
        };
        proof {
            reveal_strlit("desktop");
            assert("desktop"@.map_values(|c: char| ascii_lower(c)) =~= "desktop"@);
        }
        if planned || self.names_desktop() {
            if let Some(dir) = desktop {
                return FilePath::given(dir);
            }
        }
        default_media_dir(configured, workspace)
    }
}

/// Where the picture or video of a request goes. `configured` is the directory that
/// is configured for them.
pub fn screenshot_output_dir_for_request(
    request: &str,
    workspace: FilePath,
    plan: Option<&BrowserToolPlan>,
    configured: Option<PathBuf>,
) -> (r: FilePath)
    ensures
        exists|desktop: Option<PathBuf>|
            r@ == #[trigger] output_dir(
                request@,
                lowered(request@),
                plan_view(plan),
                desktop,
                configured,
                workspace@,
            ),
{
    wording(request).output_dir(plan, dirs::desktop_dir(), configured, workspace)
}

/// The name of the picture or video of an address, taken at a time.
pub open spec fn media_name(url: Seq<char>, millis: int, seconds: nat) -> Seq<char> {
    name_piece(
        without_prefixes(without_prefixes(without_prefixes(url, "https://"@), "http://"@), "www."@),
    ) + "-"@ + decimal(millis) + "."@ + (if seconds > 0 {
        "webm"@
    } else {
        "png"@
    })
}

/// The name of the picture or video of an address, taken at a time.
pub fn name_media(url: &str, millis: i64, record_seconds: u64) -> (r: String)
    ensures
        r@ == media_name(url@, millis as int, record_seconds as nat),
{
    let all = chars(url);
    let bare = strip_prefixes(
        strip_prefixes(strip_prefixes(all.as_slice(), "https://"), "http://"),
        "www.",
    );
    let mut out = sanitize_filename_piece(string(bare).as_str());
    out.append("-");
    out.append(i64_text(millis).as_str());
    out.append(".");
    out.append(
        if record_seconds > 0 {
            "webm"
        } else {
            "png"
        },
    );
    out
}

/// The name of the picture or video of an address, taken now.
pub fn media_file_name(url: &str, record_seconds: u64) -> (r: String)
    ensures
        exists|millis: int|
            millis >= 0 && r@ == #[trigger] media_name(url@, millis, record_seconds as nat),
{
    let millis: i64 = utc_millis();
    name_media(url, millis, record_seconds)
}

/// The directory for unfinished videos, beside the picture or video in its directory.
pub fn video_dir(output_dir: FilePath) -> (r: FilePath)
    ensures
        r@ == output_dir@.with(".playwright-video-temp"@),
{
    output_dir.with(".playwright-video-temp")
}

/// The name of a script that is written at a time.
pub open spec fn script_name(millis: int) -> Seq<char> {
    "playwright-shot-"@ + decimal(millis) + ".cjs"@
}

/// The path of a script that is written now, under the data directory.
pub fn script_path(data_dir: FilePath) -> (r: FilePath)
    ensures
        exists|millis: int|
            millis >= 0 && r@ == data_dir@.with("runtime"@).with(#[trigger] script_name(millis)),
{
    let millis: i64 = utc_millis();
    script_path_at(data_dir, millis)
}

/// The path of a script that is written at a time, under the data directory.
pub fn script_path_at(data_dir: FilePath, millis: i64) -> (r: FilePath)
    ensures
        r@ == data_dir@.with("runtime"@).with(script_name(millis as int)),
{
    let mut name = "playwright-shot-".to_string();
    name.append(i64_text(millis).as_str());
    name.append(".cjs");
    assert(name@ == script_name(millis as int));
    data_dir.with("runtime").with(name.as_str())
}

/// What the user is told of the page and the file.
pub open spec fn output_notice(url: Seq<char>, path: Seq<char>) -> Seq<char> {
    "[tool] 已解析浏览器目标："@ + url + "\r\n[tool] 输出位置："@ + path
        + "\r\n[tool] 正在启动 Playwright/Chrome...\r\n"@
}

/// What the user is told of the page and the file.
pub fn tell_output(url: &str, path: &str) -> (r: String)
    ensures
        r@ == output_notice(url@, path@),
{
    let mut out = "[tool] 已解析浏览器目标：".to_string();
    out.append(url);
    out.append("\r\n[tool] 输出位置：");
    out.append(path);
    out.append("\r\n[tool] 正在启动 Playwright/Chrome...\r\n");
    out
}

/// What the user is told of what is done on the page.
pub open spec fn job_notice(job: JobView) -> Seq<char> {
    "[tool] 已识别为“浏览器自动化后"@ + action_name(job.record_seconds) + "”，search_query="@
        + or_else(job.search_query, "-"@) + ", click_target="@ + or_else(job.click_target, "-"@)
        + ", scroll_before_click="@ + bool_chars(job.scroll_before_click) + ", login_requested="@
        + bool_chars(job.login_requested) + ", fullscreen_requested="@ + bool_chars(
        job.fullscreen_requested,
    ) + ", wait_for_user_seconds="@ + decimal(job.wait_for_user_seconds as int)
        + "，将执行浏览器自动化脚本...\r\n"@
}

fn tell_job(job: &MediaJob) -> (r: String)
    ensures
        r@ == job_notice(job@),
{
    let mut out = "[tool] 已识别为“浏览器自动化后".to_string();
    out.append(action_text(job.record_seconds));
    out.append("”，search_query=");
    append_or(&mut out, job.search_query.as_str(), "-");
    out.append(", click_target=");
    append_or(&mut out, job.click_target.as_str(), "-");
    out.append(", scroll_before_click=");
    out.append(bool_text(job.scroll_before_click));
    out.append(", login_requested=");
    out.append(bool_text(job.login_requested));
    out.append(", fullscreen_requested=");
    out.append(bool_text(job.fullscreen_requested));
    out.append(", wait_for_user_seconds=");
    out.append(u64_text(job.wait_for_user_seconds).as_str());
    out.append("，将执行浏览器自动化脚本...\r\n");
    out
}

/// How the browser is started.
pub enum MediaLaunch {
    /// By a script. The step has failed where it cannot be written.
    Script(ScriptValues, MediaStep),
    /// By the command that takes a picture.
    Picture(Vec<String>),
}

/// The values are those of a job's script. Where there is nothing to do on the page,
/// nothing is scrolled either.
pub open spec fn is_script(v: ScriptValues, job: JobView, output: Seq<char>, video: Seq<char>) -> bool {
    &&& v.url@ == job.url
    &&& v.output@ == output
    &&& v.search_query@ == job.search_query
    &&& v.click_target@ == job.click_target
    &&& v.scroll_before_click == (job.automated() && job.scroll_before_click)
    &&& v.record_seconds == job.record_seconds
    &&& v.login_requested == job.login_requested
    &&& v.fullscreen_requested == job.fullscreen_requested
    &&& v.wait_for_user_seconds == job.wait_for_user_seconds
    &&& v.video_dir@ == video
}

/// The arguments of the command that takes a picture.
pub open spec fn picture_args(url: Seq<char>, output: Seq<char>) -> Seq<Seq<char>> {
    seq![
        "playwright"@,
        "screenshot"@,
        "--browser=chromium"@,
        "--channel=chrome"@,
        "--timeout=90000"@,
        url,
        output,
    ]
}

/// Says how the browser is started, and what the user is told where there is
/// something to do on the page. `output` and `video_dir` are the paths of the file
/// and of the directory for unfinished videos.
pub fn launch_media(job: &MediaJob, output: &str, video_dir: &str) -> (r: (
    Option<String>,
    MediaLaunch,
))
    ensures
        r.0 is Some == job@.automated(),
        r.0 matches Some(notice) ==> notice@ == job_notice(job@),
        r.1 is Script == (job@.automated() || job.record_seconds > 0),
        r.1 matches MediaLaunch::Script(v, step) ==> {
            &&& is_script(v, job@, output@, video_dir@)
            &&& step == MediaStep::WriteScript(job@.automated())
        },
        r.1 matches MediaLaunch::Picture(args) ==> views(args@) == picture_args(
            job.url@,
            output@,
        ),
{
    let automated = !job.click_target.as_str().is_empty() || !job.search_query.as_str().is_empty();
    let notice = if automated {
        Some(tell_job(job))
    } else {
        None
    };
    if automated || job.record_seconds > 0 {
        let values = ScriptValues {
            url: job.url.clone(),
            output: output.to_string(),
            search_query: job.search_query.clone(),
            click_target: job.click_target.clone(),
            scroll_before_click: automated && job.scroll_before_click,
            record_seconds: job.record_seconds,
            login_requested: job.login_requested,
            fullscreen_requested: job.fullscreen_requested,
            wait_for_user_seconds: job.wait_for_user_seconds,
            video_dir: video_dir.to_string(),
        };
        return (notice, MediaLaunch::Script(values, MediaStep::WriteScript(automated)));
    }
    let mut args: Vec<String> = Vec::new();
    args.push("playwright".to_string());
    args.push("screenshot".to_string());
    args.push("--browser=chromium".to_string());
    args.push("--channel=chrome".to_string());
    args.push("--timeout=90000".to_string());
    args.push(job.url.clone());
    args.push(output.to_string());
    assert(views(args@) =~= picture_args(job.url@, output@));
    (notice, MediaLaunch::Picture(args))
}

/// The arguments that run a script.
pub fn script_args(script: &str) -> (r: Vec<String>)
    ensures
        views(r@) == seq!["--yes"@, "--package=playwright"@, "--"@, "node"@, script@],
{
    let mut args: Vec<String> = Vec::new();
    args.push("--yes".to_string());
    args.push("--package=playwright".to_string());
    args.push("--".to_string());
    args.push("node".to_string());
    args.push(script.to_string());
    assert(views(args@) =~= seq!["--yes"@, "--package=playwright"@, "--"@, "node"@, script@]);
    args
}

/// A step of a run that failed.
#[derive(Clone, Copy, PartialEq, Eq, Structural)]
pub enum MediaStep {
    MakeDirectory,
    /// Writing the script. There is something to do on the page, or else a video is to be
    /// recorded.
    WriteScript(bool),
    Start,
    Wait,
}

/// What is answered where a step failed.
pub open spec fn step_failure(step: MediaStep, seconds: nat, error: Seq<char>) -> Seq<char> {
    match step {
        MediaStep::MakeDirectory => "创建截图输出目录失败："@ + error,
        MediaStep::WriteScript(true) => "创建 Playwright 自动化脚本失败："@ + error,
        MediaStep::WriteScript(false) => "创建 Playwright 录制脚本失败："@ + error,
        MediaStep::Start => "启动 Playwright "@ + action_name(seconds) + "失败："@ + error,
        MediaStep::Wait => "等待 Playwright "@ + action_name(seconds) + "失败："@ + error,
    }
}

/// What is answered where a step failed.
pub fn fail_media(step: MediaStep, record_seconds: u64, error: &str) -> (r: (String, i32))
    ensures
        r.0@ == step_failure(step, record_seconds as nat, error@),
        r.1 == -1,
{
    let mut out = match step {
        MediaStep::MakeDirectory => "创建截图输出目录失败：".to_string(),
        MediaStep::WriteScript(true) => "创建 Playwright 自动化脚本失败：".to_string(),
        MediaStep::WriteScript(false) => "创建 Playwright 录制脚本失败：".to_string(),
        MediaStep::Start => {
            let mut out = "启动 Playwright ".to_string();
            out.append(action_text(record_seconds));
            out.append("失败：");
            out
        },
        MediaStep::Wait => {
            let mut out = "等待 Playwright ".to_string();
            out.append(action_text(record_seconds));
            out.append("失败：");
            out
        },
    };
    out.append(error);
    (out, -1)
}

/// What the user is told at a look at the browser that is still at work: at the
/// first look, and then at every fourth.
pub open spec fn waiting_notice(looks: nat, seconds: nat) -> Option<Seq<char>> {
    if looks == 1 {
        Some("[tool] Chrome 已启动，正在打开页面并等待加载...\r\n"@)
    } else if looks % 4 == 0 {
        Some("[tool] 页面仍在加载或"@ + action_name(seconds) + "处理中...\r\n"@)
    } else {
        None
    }
}

/// What the user is told at a look at the browser that is still at work.
pub fn tell_waiting(looks: u64, record_seconds: u64) -> (r: Option<String>)
    ensures
        match r {
            Some(s) => waiting_notice(looks as nat, record_seconds as nat) == Some(s@),
            None => waiting_notice(looks as nat, record_seconds as nat) is None,
        },
{
    if looks == 1 {
        Some("[tool] Chrome 已启动，正在打开页面并等待加载...\r\n".to_string())
    } else if looks % 4 == 0 {
        let mut out = "[tool] 页面仍在加载或".to_string();
        out.append(action_text(record_seconds));
        out.append("处理中...\r\n");
        Some(out)
    } else {
        None
    }
}

/// How the browser ended: its exit code where it has one, whether that is a success,
/// whether the file is there, and what it printed.
pub struct MediaExit {
    pub success: bool,
    pub code: Option<i32>,
    pub written: bool,
    pub printed: String,
}

/// The answer to a run that has ended, with its exit code.
pub open spec fn media_result(
    exit: MediaExit,
    seconds: nat,
    path: Seq<char>,
    dir: Seq<char>,
) -> (Seq<char>, int) {
    if exit.success && exit.written {
        if seconds > 0 {
            ("视频已保存："@ + path + "\n视频所在文件夹："@ + dir, 0)
        } else {
            ("截图已保存："@ + path + "\n截图所在文件夹："@ + dir, 0)
        }
    } else {
        let code = match exit.code {
            Some(c) => c as int,
            None => -1,
        };
        (
            action_name(seconds) + "失败，退出码："@ + decimal(code) + "。\n"@ + exit.printed@,
            code,
        )
    }
}

/// What the user is told when the file is there.
pub open spec fn written_notice(seconds: nat, path: Seq<char>) -> Seq<char> {
    "[tool] 页面"@ + action_name(seconds) + "完成，文件已写入："@ + path + "\r\n"@
}

/// Ends a run: what the user is told, if anything, and the answer with its exit code.
pub fn finish_media(exit: &MediaExit, record_seconds: u64, path: &str, dir: &str) -> (r: (
    Option<String>,
    String,
    i32,
))
    ensures
        r.0 is Some == (exit.success && exit.written),
        r.0 matches Some(s) ==> s@ == written_notice(record_seconds as nat, path@),
        (r.1@, r.2 as int) == media_result(*exit, record_seconds as nat, path@, dir@),
{
    if exit.success && exit.written {
        let mut notice = "[tool] 页面".to_string();
        notice.append(action_text(record_seconds));
        notice.append("完成，文件已写入：");
        notice.append(path);
        notice.append("\r\n");
        let mut out = if record_seconds > 0 {
            "视频已保存：".to_string()
        } else {
            "截图已保存：".to_string()
        };
        out.append(path);
        out.append(
            if record_seconds > 0 {
                "\n视频所在文件夹："
            } else {
                "\n截图所在文件夹："
            },
        );
        out.append(dir);
        return (Some(notice), out, 0);
    }
    let code: i32 = match exit.code {
        Some(c) => c,
        None => -1,
    };
    let mut out = action_text(record_seconds).to_string();
    out.append("失败，退出码：");
    out.append(i64_text(code as i64).as_str());
    out.append("。\n");
    out.append(exit.printed.as_str());
    (None, out, code)
}

/// The first place in a list that holds, from a position on.
pub open spec fn first_true(found: Seq<bool>, i: int) -> Option<int>
    decreases found.len() - i,
{
    if i < 0 || i >= found.len() {
        None
    } else if found[i] {
        Some(i)
    } else {
        first_true(found, i + 1)
    }
}

fn find_true(found: &Vec<bool>) -> (r: Option<usize>)
    ensures
        match r {
            Some(k) => first_true(found@, 0) == Some(k as int) && k < found@.len(),
            None => first_true(found@, 0) is None,
        },
{
    let mut i: usize = 0;
    while i < found.len()
        invariant
            i <= found@.len(),
            first_true(found@, 0) == first_true(found@, i as int),
        decreases found@.len() - i,
    {
        if found[i] {
            return Some(i);
        }
        i = i + 1;
    }
    None
}

/// How the tool that runs packages is called.
pub enum NpxChoice {
    /// At one of its usual places.
    Place(String),
    /// In a directory of the search path, by its position there, under a name.
    InPath(usize, String),
    /// By the shell.
    Shell,
}

/// The usual places of the tool.
pub open spec fn npx_place(k: int) -> Seq<char> {
    if k == 0 {
        "C:\\Program Files\\nodejs\\npx.cmd"@
    } else {
        "C:\\Program Files (x86)\\nodejs\\npx.cmd"@
    }
}

/// The names of the tool.
pub open spec fn npx_name(k: int) -> Seq<char> {
    if k == 0 {
        "npx.cmd"@
    } else if k == 1 {
        "npx.exe"@
    } else {
        "npx"@
    }
}

/// Chooses how the tool is called. `found` tells of each place where it may be
/// whether it is there: of its two usual places, and then of each directory of the
/// search path under each of its three names.
pub fn choose_npx(found: &Vec<bool>) -> (r: NpxChoice)
    ensures
        match (r, first_true(found@, 0)) {
            (NpxChoice::Place(text), Some(k)) => k < 2 && text@ == npx_place(k),
            (NpxChoice::InPath(dir, name), Some(k)) => k >= 2 && dir == (k - 2) / 3 && name@
                == npx_name((k - 2) % 3),
            (NpxChoice::Shell, None) => true,
            _ => false,
        },
{
    match find_true(found) {
        Some(k) => if k == 0 {
            NpxChoice::Place("C:\\Program Files\\nodejs\\npx.cmd".to_string())
        } else if k == 1 {
            NpxChoice::Place("C:\\Program Files (x86)\\nodejs\\npx.cmd".to_string())
        } else {
            let which: usize = (k - 2) % 3;
            let name = if which == 0 {
                "npx.cmd".to_string()
            } else if which == 1 {
                "npx.exe".to_string()
            } else {
                "npx".to_string()
            };
            NpxChoice::InPath((k - 2) / 3, name)
        },
        None => NpxChoice::Shell,
    }
}

/// Where the browser's package may be installed, unless the directory above the
/// current one is unknown: at a fixed place, else beside the program. The flags tell
/// of each whether the package is there.
pub open spec fn package_dir(
    above: Option<PathBuf>,
    at_fixed: bool,
    beside: bool,
) -> Option<PathView> {
    match above {
        Some(dir) => if at_fixed {
            Some(by_text("D:\\pro_sunner\\demo_vscode\\node_modules"@))
        } else if beside {
            Some(given(dir).with("node_modules"@))
        } else {
            None
        },
        None => None,
    }
}

/// Where the browser's package is installed.
pub fn find_playwright_node_modules(above: Option<PathBuf>, at_fixed: bool, beside: bool) -> (r:
    Option<FilePath>)
    ensures
        match r {
            Some(path) => package_dir(above, at_fixed, beside) == Some(path@),
            None => package_dir(above, at_fixed, beside) is None,
        },
{
    match above {
        Some(dir) => if at_fixed {
            Some(FilePath::by_text("D:\\pro_sunner\\demo_vscode\\node_modules"))
        } else if beside {
            Some(FilePath::given(dir).with("node_modules"))
        } else {
            None
        },
        None => None,
    }
}

/// A run records for as many seconds as the plan says, but for no more than two minutes;
/// where the plan says nothing it records as long as the request asks for. It waits for
/// the user as the plan says, but for no more than three minutes; where the plan says
/// nothing it waits only where they are to sign in.
pub proof fn law_runs_take_the_time_of_the_plan(
    text: Seq<char>,
    lower: Seq<char>,
    start: Seq<char>,
    start_lower: Seq<char>,
    plan: PlanView,
    requested: nat,
)
    ensures
        media_job(text, lower, start, start_lower, plan, requested) matches Some(job) ==> {
            &&& 1 <= plan.record_seconds <= 120 ==> job.record_seconds == plan.record_seconds
            &&& plan.record_seconds > 120 ==> job.record_seconds == 120
            &&& plan.record_seconds == 0 ==> job.record_seconds == requested
            &&& 1 <= plan.wait_for_user_seconds <= 180 ==> job.wait_for_user_seconds
                == plan.wait_for_user_seconds
            &&& plan.wait_for_user_seconds > 180 ==> job.wait_for_user_seconds == 180
            &&& plan.wait_for_user_seconds == 0 && job.login_requested
                ==> job.wait_for_user_seconds == 45
            &&& plan.wait_for_user_seconds == 0 && !job.login_requested
                ==> job.wait_for_user_seconds == 0
        },
{
}

/// A run opens the plan's address, or else the one of the request; there is no run exactly
/// where neither gives one. What the plan says is done, and also what the request asks for.
pub proof fn law_runs_do_what_is_planned(
    text: Seq<char>,
    lower: Seq<char>,
    start: Seq<char>,
    start_lower: Seq<char>,
    plan: PlanView,
    requested: nat,
)
    ensures
        match (
            start_url(start, start_lower),
            page_url(text, lower),
            media_job(text, lower, start, start_lower, plan, requested),
        ) {
            (Some(url), _, Some(job)) => job.url == url,
            (None, Some(url), Some(job)) => job.url == url,
            (None, None, None) => true,
            _ => false,
        },
        media_job(text, lower, start, start_lower, plan, requested) matches Some(job) ==> {
            &&& job.search_query == trimmed(plan.search_query)
            &&& job.login_requested == (plan.login_required || wants_login(text, lower))
            &&& job.fullscreen_requested == (plan.fullscreen || wants_fullscreen(text, lower))
            &&& job.scroll_before_click == wants_scroll(text, lower)
            &&& trimmed(plan.click_target).len() > 0 ==> job.click_target == trimmed(
                plan.click_target,
            )
            &&& trimmed(plan.click_target).len() == 0 ==> {
                let search = trimmed(plan.search_query).len() > 0 || contains_text(text, "搜索"@);
                &&& search && names_video(text, lower) ==> job.click_target == "video"@
                &&& search && !names_video(text, lower) ==> job.click_target == "search_result"@
                &&& !search && wants_video_click(text, lower) ==> job.click_target == "video"@
                &&& !search && !wants_video_click(text, lower) ==> job.click_target.len() == 0
            }
        },
{
}

/// A prompt asks to record only where the user asks for a recording in it, and then for as
/// long as it says.
pub proof fn law_prompts_say_how_long_to_record(request: Seq<char>)
    ensures
        wants_recording(user_request(request), lowered(user_request(request)))
            ==> requested_seconds(request) == record_seconds(lowered(request)),
        !wants_recording(user_request(request), lowered(user_request(request)))
            ==> requested_seconds(request) == 0,
{
}

/// The file goes to the desktop where the plan or the request says so and there is one,
/// and to the directory for pictures and videos otherwise.
pub proof fn law_files_go_where_they_are_wanted(
    text: Seq<char>,
    lower: Seq<char>,
    plan: PlanView,
    desktop: PathBuf,
    configured: Option<PathBuf>,
    workspace: PathView,
)
    ensures
        ({
            let planned = plan.save_location.len() == "desktop"@.len() && (forall|i: int|
                0 <= i < "desktop"@.len() ==> ascii_lower(#[trigger] plan.save_location[i])
                    == "desktop"@[i]);
            let dir = output_dir(text, lower, Some(plan), Some(desktop), configured, workspace);
            &&& planned ==> dir == given(desktop)
            &&& names_desktop(text, lower) ==> dir == given(desktop)
            &&& !planned && !names_desktop(text, lower) ==> dir == media_dir(configured, workspace)
        }),
        names_desktop(text, lower) ==> output_dir(
            text,
            lower,
            None,
            Some(desktop),
            configured,
            workspace,
        ) == given(desktop),
        !names_desktop(text, lower) ==> output_dir(
            text,
            lower,
            None,
            Some(desktop),
            configured,
            workspace,
        ) == media_dir(configured, workspace),
        output_dir(text, lower, Some(plan), None, configured, workspace) == media_dir(
            configured,
            workspace,
        ),
{
    reveal_strlit("desktop");
    let low = plan.save_location.map_values(|c: char| ascii_lower(c));
    if low =~= "desktop"@ {
        assert forall|i: int| 0 <= i < "desktop"@.len() implies ascii_lower(
            #[trigger] plan.save_location[i],
        ) == "desktop"@[i] by {
            assert(low[i] == "desktop"@[i]);
        }
    }
}

/// A file is named by the plain characters of its address, without the scheme and the
/// leading www, and by the time; it ends as a video exactly where it is one.
pub proof fn law_files_are_named_by_address_and_time(
    host: Seq<char>,
    millis: int,
    seconds: nat,
)
    requires
        !starts(host, "https://"@),
        !starts(host, "http://"@),
        !starts(host, "www."@),
        !starts("www."@ + host, "https://"@),
        !starts("www."@ + host, "http://"@),
    ensures
        media_name(host, millis, seconds) == name_piece(host) + "-"@ + decimal(millis) + (if seconds
            == 0 {
            ".png"@
        } else {
            ".webm"@
        }),
        media_name("https://"@ + host, millis, seconds) == media_name(host, millis, seconds),
        media_name("http://"@ + host, millis, seconds) == media_name(host, millis, seconds),
        media_name("www."@ + host, millis, seconds) == media_name(host, millis, seconds),
        media_name("https://"@ + ("www."@ + host), millis, seconds) == media_name(
            host,
            millis,
            seconds,
        ),
{
    reveal_strlit("https://");
    reveal_strlit("http://");
    reveal_strlit("www.");
    reveal_strlit(".");
    reveal_strlit("png");
    reveal_strlit("webm");
    reveal_strlit(".png");
    reveal_strlit(".webm");
    lemma_prefix_away("https://"@, host);
    lemma_prefix_away("http://"@, host);
    lemma_prefix_away("www."@, host);
    lemma_prefix_away("https://"@, "www."@ + host);
    law_prefixes_are_taken_away(host, "https://"@);
    law_prefixes_are_taken_away(host, "http://"@);
    law_prefixes_are_taken_away(host, "www."@);
    law_prefixes_are_taken_away("www."@ + host, "https://"@);
    law_prefixes_are_taken_away("www."@ + host, "http://"@);
    let other = "http://"@ + host;
    if starts(other, "https://"@) {
        assert(other.subrange(0, 8)[4] == ':');
        assert("https://"@[4] == 's');
    }
    law_prefixes_are_taken_away(other, "https://"@);
    assert("."@ + "png"@ =~= ".png"@);
    assert("."@ + "webm"@ =~= ".webm"@);
    let front = name_piece(host) + "-"@ + decimal(millis);
    assert(front + "."@ + "png"@ =~= front + ".png"@);
    assert(front + "."@ + "webm"@ =~= front + ".webm"@);
}

/// A prefix that stands once is taken away.
proof fn lemma_prefix_away(pat: Seq<char>, s: Seq<char>)
    requires
        pat.len() > 0,
        !starts(s, pat),
    ensures
        without_prefixes(pat + s, pat) == s,
{
    assert((pat + s).subrange(0, pat.len() as int) =~= pat);
    assert((pat + s).skip(pat.len() as int) =~= s);
    law_prefixes_are_taken_away(pat + s, pat);
    law_prefixes_are_taken_away(s, pat);
}

/// A run succeeds exactly where the browser does and the file is there: then the answer
/// names the file and its directory. Otherwise it gives the exit code and what was printed.
pub proof fn law_runs_end_with_the_file_or_the_failure(
    exit: MediaExit,
    seconds: nat,
    path: Seq<char>,
    dir: Seq<char>,
)
    ensures
        ({
            let (answer, code) = media_result(exit, seconds, path, dir);
            &&& exit.success && exit.written ==> {
                &&& code == 0
                &&& contains_text(answer, path)
                &&& answer.len() >= dir.len() && answer.skip(answer.len() - dir.len()) == dir
                &&& seconds > 0 ==> starts(answer, "视频"@)
                &&& seconds == 0 ==> starts(answer, "截图"@)
            }
            &&& !(exit.success && exit.written) ==> {
                &&& exit.code matches Some(c) ==> code == c
                &&& exit.code is None ==> code == -1
                &&& answer.len() >= exit.printed@.len() && answer.skip(
                    answer.len() - exit.printed@.len(),
                ) == exit.printed@
                &&& contains_text(answer, decimal(code))
                &&& seconds > 0 ==> starts(answer, "录制失败"@)
                &&& seconds == 0 ==> starts(answer, "截图失败"@)
            }
        }),
{
    reveal_strlit("视频已保存：");
    reveal_strlit("截图已保存：");
    reveal_strlit("视频");
    reveal_strlit("截图");
    reveal_strlit("录制");
    reveal_strlit("录制失败");
    reveal_strlit("截图失败");
    reveal_strlit("失败，退出码：");
    let (answer, code) = media_result(exit, seconds, path, dir);
    if exit.success && exit.written {
        if seconds > 0 {
            law_texts_hold_their_parts("视频已保存："@, path, "\n视频所在文件夹："@);
            lemma_still_held("视频已保存："@ + path + "\n视频所在文件夹："@, dir, path);
            assert(answer.subrange(0, 2) =~= "视频"@);
        } else {
            law_texts_hold_their_parts("截图已保存："@, path, "\n截图所在文件夹："@);
            lemma_still_held("截图已保存："@ + path + "\n截图所在文件夹："@, dir, path);
            assert(answer.subrange(0, 2) =~= "截图"@);
        }
        assert(answer.skip(answer.len() - dir.len()) =~= dir);
    } else {
        let front = action_name(seconds) + "失败，退出码："@;
        law_texts_hold_their_parts(front, decimal(code), "。\n"@);
        lemma_still_held(front + decimal(code) + "。\n"@, exit.printed@, decimal(code));
        assert(answer.skip(answer.len() - exit.printed@.len()) =~= exit.printed@);
        if seconds > 0 {
            assert(answer.subrange(0, 4) =~= "录制失败"@);
        } else {
            assert(answer.subrange(0, 4) =~= "截图失败"@);
        }
    }
}

/// A step that failed is told by what it was to do, and the answer ends with the error.
pub proof fn law_failures_end_with_the_error(
    a: MediaStep,
    b: MediaStep,
    seconds: nat,
    error: Seq<char>,
)
    ensures
        ({
            let answer = step_failure(a, seconds, error);
            answer.len() >= error.len() && answer.skip(answer.len() - error.len()) == error
        }),
        step_failure(a, seconds, error) == step_failure(b, seconds, error) ==> a == b,
        step_failure(MediaStep::Start, 0, error) != step_failure(
            MediaStep::Start,
            seconds + 1,
            error,
        ),
        step_failure(MediaStep::Wait, 0, error) != step_failure(
            MediaStep::Wait,
            seconds + 1,
            error,
        ),
{
    reveal_strlit("创建截图输出目录失败：");
    reveal_strlit("创建 Playwright 自动化脚本失败：");
    reveal_strlit("创建 Playwright 录制脚本失败：");
    reveal_strlit("启动 Playwright ");
    reveal_strlit("等待 Playwright ");
    reveal_strlit("录制");
    reveal_strlit("截图");
    reveal_strlit("失败：");
    let answer = step_failure(a, seconds, error);
    assert(answer.skip(answer.len() - error.len()) =~= error);
    let other = step_failure(b, seconds, error);
    assert(answer[0] == (if a is Start {
        '启'
    } else if a is Wait {
        '等'
    } else {
        '创'
    }));
    assert(other[0] == (if b is Start {
        '启'
    } else if b is Wait {
        '等'
    } else {
        '创'
    }));
    assert(a == MediaStep::WriteScript(true) ==> answer[14] == '自');
    assert(a == MediaStep::WriteScript(false) ==> answer[14] == '录');
    assert(a == MediaStep::MakeDirectory ==> answer[2] == '截');
    assert(b == MediaStep::WriteScript(true) ==> other[14] == '自');
    assert(b == MediaStep::WriteScript(false) ==> other[14] == '录');
    assert(b == MediaStep::MakeDirectory ==> other[2] == '截');
    assert(a is WriteScript ==> answer[2] == ' ');
    assert(b is WriteScript ==> other[2] == ' ');
    assert(step_failure(MediaStep::Start, 0, error)[14] == '截');
    assert(step_failure(MediaStep::Start, seconds + 1, error)[14] == '录');
    assert(step_failure(MediaStep::Wait, 0, error)[14] == '截');
    assert(step_failure(MediaStep::Wait, seconds + 1, error)[14] == '录');
}

/// The user is told of a browser at work at the first look and at every fourth, and at no
/// other; the first time they are told something else than later.
pub proof fn law_waiting_is_told_now_and_then(k: nat, seconds: nat)
    ensures
        waiting_notice(1, seconds) is Some,
        waiting_notice(4 * k, seconds) is Some,
        waiting_notice(4 * k + 2, seconds) is None,
        waiting_notice(4 * k + 3, seconds) is None,
        k > 0 ==> waiting_notice(4 * k + 1, seconds) is None,
        k > 0 ==> waiting_notice(4 * k, seconds) != waiting_notice(1, seconds),
        waiting_notice(4 * k, seconds) == waiting_notice(0, seconds),
{
    reveal_strlit("[tool] Chrome 已启动，正在打开页面并等待加载...\r\n");
    reveal_strlit("[tool] 页面仍在加载或");
    assert((4 * k) % 4 == 0 && (4 * k + 1) % 4 == 1 && (4 * k + 2) % 4 == 2 && (4 * k + 3) % 4
        == 3);
    if k > 0 {
        assert((waiting_notice(1, seconds)->0)[7] == 'C');
        assert((waiting_notice(4 * k, seconds)->0)[7] == '页');
    }
}

/// The first place that holds is found: it holds, and none before it does.
pub proof fn law_the_first_place_is_found(found: Seq<bool>, k: int)
    ensures
        0 <= k < found.len() && found[k] && (forall|j: int| 0 <= j < k ==> !#[trigger] found[j])
            ==> first_true(found, 0) == Some(k),
        (forall|j: int| 0 <= j < found.len() ==> !#[trigger] found[j]) ==> first_true(found, 0)
            is None,
{
    lemma_first_true(found, 0, k);
}

proof fn lemma_first_true(found: Seq<bool>, i: int, k: int)
    requires
        0 <= i <= found.len(),
    ensures
        i <= k < found.len() && found[k] && (forall|j: int| i <= j < k ==> !#[trigger] found[j])
            ==> first_true(found, i) == Some(k),
        (forall|j: int| i <= j < found.len() ==> !#[trigger] found[j]) ==> first_true(found, i)
            is None,
    decreases found.len() - i,
{
    if i < found.len() {
        lemma_first_true(found, i + 1, k);
    }
}

/// The package is looked for at the fixed place before the one beside the program, and
/// nowhere where the directory above is unknown.
pub proof fn law_packages_are_looked_for_in_order(dir: PathBuf, at_fixed: bool, beside: bool)
    ensures
        package_dir(None, at_fixed, beside) is None,
        package_dir(Some(dir), true, beside) == Some(
            by_text("D:\\pro_sunner\\demo_vscode\\node_modules"@),
        ),
        package_dir(Some(dir), false, true) == Some(given(dir).with("node_modules"@)),
        package_dir(Some(dir), false, false) is None,
{
}

/// A script is made with the values of the job, each at its own place; scrolling is left
/// out exactly where there is nothing to search for and nothing to click on.
pub proof fn law_scripts_hold_the_job(
    v: ScriptValues,
    job: JobView,
    output: Seq<char>,
    video: Seq<char>,
)
    requires
        is_script(v, job, output, video),
    ensures
        v.url@ == job.url && v.output@ == output && v.video_dir@ == video,
        v.search_query@ == job.search_query && v.click_target@ == job.click_target,
        v.record_seconds == job.record_seconds,
        v.wait_for_user_seconds == job.wait_for_user_seconds,
        v.login_requested == job.login_requested,
        v.fullscreen_requested == job.fullscreen_requested,
        job.search_query.len() > 0 || job.click_target.len() > 0 ==> v.scroll_before_click
            == job.scroll_before_click,
        job.search_query.len() == 0 && job.click_target.len() == 0 ==> !v.scroll_before_click,
{
}

/// What the user is told of a plan names the address, the query, the target, the seconds
/// and the steps that the run goes by, with a dash for what is not there.
#[verifier::rlimit(40)]
pub proof fn law_plans_are_told(job: JobView, plan: PlanView)
    ensures
        ({
            let notice = plan_notice(job, plan);
            let query = trimmed(plan.search_query);
            let target = trimmed(plan.click_target);
            let place = trimmed(plan.save_location);
            &&& contains_text(notice, "start_url="@ + job.url)
            &&& query.len() > 0 ==> contains_text(notice, ", search_query="@ + query)
            &&& query.len() == 0 ==> contains_text(notice, ", search_query="@ + "-"@)
            &&& target.len() > 0 ==> contains_text(notice, ", click_target="@ + target)
            &&& target.len() == 0 ==> contains_text(notice, ", click_target="@ + "-"@)
            &&& plan.screenshot ==> contains_text(notice, ", screenshot="@ + "true"@)
            &&& !plan.screenshot ==> contains_text(notice, ", screenshot="@ + "false"@)
            &&& place.len() > 0 ==> contains_text(notice, ", save_location="@ + place)
            &&& place.len() == 0 ==> contains_text(notice, ", save_location="@ + "workspace"@)
            &&& contains_text(notice, ", record_seconds="@ + decimal(job.record_seconds as int))
            &&& plan.login_required ==> contains_text(notice, ", login_required="@ + "true"@)
            &&& !plan.login_required ==> contains_text(notice, ", login_required="@ + "false"@)
            &&& plan.fullscreen ==> contains_text(notice, ", fullscreen="@ + "true"@)
            &&& !plan.fullscreen ==> contains_text(notice, ", fullscreen="@ + "false"@)
            &&& contains_text(
                notice,
                ", wait_for_user_seconds="@ + decimal(plan.wait_for_user_seconds as int),
            )
            &&& plan.action_plan.len() > 0 ==> contains_text(
                notice,
                ", actions="@ + joined(plan.action_plan, " -> "@),
            )
            &&& plan.action_plan.len() == 0 ==> contains_text(notice, ", actions="@ + "-"@)
        }),
{
    let steps = if plan.action_plan.len() == 0 {
        "-"@
    } else {
        joined(plan.action_plan, " -> "@)
    };
    let query = or_else(trimmed(plan.search_query), "-"@);
    let target = or_else(trimmed(plan.click_target), "-"@);
    let place = or_else(trimmed(plan.save_location), "workspace"@);
    reveal_strlit("[tool] 浏览器计划：start_url=");
    reveal_strlit("[tool] 浏览器计划：");
    reveal_strlit("start_url=");
    let head = "[tool] 浏览器计划："@;
    assert("[tool] 浏览器计划：start_url="@ =~= head + "start_url="@);
    let t0 = head + "start_url="@ + job.url;
    let h0 = lemma_told(head, seq![], "start_url="@, job.url);
    let t1 = t0 + ", search_query="@ + query;
    let h1 = lemma_told(t0, h0, ", search_query="@, query);
    let t2 = t1 + ", click_target="@ + target;
    let h2 = lemma_told(t1, h1, ", click_target="@, target);
    let t3 = t2 + ", screenshot="@ + bool_chars(plan.screenshot);
    let h3 = lemma_told(t2, h2, ", screenshot="@, bool_chars(plan.screenshot));
    let t4 = t3 + ", save_location="@ + place;
    let h4 = lemma_told(t3, h3, ", save_location="@, place);
    let t5 = t4 + ", record_seconds="@ + decimal(job.record_seconds as int);
    let h5 = lemma_told(t4, h4, ", record_seconds="@, decimal(job.record_seconds as int));
    let t6 = t5 + ", login_required="@ + bool_chars(plan.login_required);
    let h6 = lemma_told(t5, h5, ", login_required="@, bool_chars(plan.login_required));
    let t7 = t6 + ", fullscreen="@ + bool_chars(plan.fullscreen);
    let h7 = lemma_told(t6, h6, ", fullscreen="@, bool_chars(plan.fullscreen));
    let wait = decimal(plan.wait_for_user_seconds as int);
    let t8 = t7 + ", wait_for_user_seconds="@ + wait;
    let h8 = lemma_told(t7, h7, ", wait_for_user_seconds="@, wait);
    let t9 = t8 + ", actions="@ + steps;
    let h9 = lemma_told(t8, h8, ", actions="@, steps);
    let empty: Seq<char> = seq![];
    let told = lemma_told(t9, h9, "\r\n"@, empty);
    let notice = plan_notice(job, plan);
    assert(notice =~= t9 + "\r\n"@ + empty);
    assert(contains_text(notice, told[0]));
    assert(contains_text(notice, told[1]));
    assert(contains_text(notice, told[2]));
    assert(contains_text(notice, told[3]));
    assert(contains_text(notice, told[4]));
    assert(contains_text(notice, told[5]));
    assert(contains_text(notice, told[6]));
    assert(contains_text(notice, told[7]));
    assert(contains_text(notice, told[8]));
    assert(contains_text(notice, told[9]));
}

/// What the user is told of a job names what is done on the page, with a dash for what is
/// not there.
pub proof fn law_jobs_are_told(job: JobView)
    ensures
        ({
            let notice = job_notice(job);
            &&& job.search_query.len() > 0 ==> contains_text(
                notice,
                "”，search_query="@ + job.search_query,
            )
            &&& job.search_query.len() == 0 ==> contains_text(notice, "”，search_query="@ + "-"@)
            &&& job.click_target.len() > 0 ==> contains_text(
                notice,
                ", click_target="@ + job.click_target,
            )
            &&& job.click_target.len() == 0 ==> contains_text(notice, ", click_target="@ + "-"@)
            &&& job.scroll_before_click ==> contains_text(notice, ", scroll_before_click="@ + "true"@)
            &&& !job.scroll_before_click ==> contains_text(
                notice,
                ", scroll_before_click="@ + "false"@,
            )
            &&& job.login_requested ==> contains_text(notice, ", login_requested="@ + "true"@)
            &&& !job.login_requested ==> contains_text(notice, ", login_requested="@ + "false"@)
            &&& job.fullscreen_requested ==> contains_text(
                notice,
                ", fullscreen_requested="@ + "true"@,
            )
            &&& !job.fullscreen_requested ==> contains_text(
                notice,
                ", fullscreen_requested="@ + "false"@,
            )
            &&& contains_text(
                notice,
                ", wait_for_user_seconds="@ + decimal(job.wait_for_user_seconds as int),
            )
        }),
{
    let head = "[tool] 已识别为“浏览器自动化后"@ + action_name(job.record_seconds);
    let query = or_else(job.search_query, "-"@);
    let target = or_else(job.click_target, "-"@);
    let t0 = head + "”，search_query="@ + query;
    let h0 = lemma_told(head, seq![], "”，search_query="@, query);
    let t1 = t0 + ", click_target="@ + target;
    let h1 = lemma_told(t0, h0, ", click_target="@, target);
    let scroll = bool_chars(job.scroll_before_click);
    let t2 = t1 + ", scroll_before_click="@ + scroll;
    let h2 = lemma_told(t1, h1, ", scroll_before_click="@, scroll);
    let t3 = t2 + ", login_requested="@ + bool_chars(job.login_requested);
    let h3 = lemma_told(t2, h2, ", login_requested="@, bool_chars(job.login_requested));
    let t4 = t3 + ", fullscreen_requested="@ + bool_chars(job.fullscreen_requested);
    let h4 = lemma_told(t3, h3, ", fullscreen_requested="@, bool_chars(job.fullscreen_requested));
    let wait = decimal(job.wait_for_user_seconds as int);
    let t5 = t4 + ", wait_for_user_seconds="@ + wait;
    let h5 = lemma_told(t4, h4, ", wait_for_user_seconds="@, wait);
    let empty: Seq<char> = seq![];
    let told = lemma_told(t5, h5, "，将执行浏览器自动化脚本...\r\n"@, empty);
    let notice = job_notice(job);
    assert(notice =~= t5 + "，将执行浏览器自动化脚本...\r\n"@ + empty);
    assert(contains_text(notice, told[0]));
    assert(contains_text(notice, told[1]));
    assert(contains_text(notice, told[2]));
    assert(contains_text(notice, told[3]));
    assert(contains_text(notice, told[4]));
    assert(contains_text(notice, told[5]));
}

/// The user is told of the address and the path while the browser works, and of the path
/// again when the file is there; they are told apart by what is made, a picture or a video.
pub proof fn law_the_file_is_told(url: Seq<char>, path: Seq<char>, seconds: nat)
    ensures
        contains_text(output_notice(url, path), url + "\r\n"@),
        contains_text(output_notice(url, path), path + "\r\n"@),
        ends(written_notice(seconds, path), path + "\r\n"@),
        seconds > 0 ==> starts(written_notice(seconds, path), "[tool] 页面录制完成"@),
        seconds == 0 ==> starts(written_notice(seconds, path), "[tool] 页面截图完成"@),
        seconds > 0 ==> ends(planning_notice(seconds), "录制计划...\r\n"@),
        seconds == 0 ==> ends(planning_notice(seconds), "截图计划...\r\n"@),
{
    reveal_strlit("\r\n");
    reveal_strlit("\r\n[tool] 输出位置：");
    reveal_strlit("\r\n[tool] 正在启动 Playwright/Chrome...\r\n");
    reveal_strlit("[tool] 页面");
    reveal_strlit("录制");
    reveal_strlit("截图");
    reveal_strlit("完成，文件已写入：");
    reveal_strlit("[tool] 页面录制完成");
    reveal_strlit("[tool] 页面截图完成");
    reveal_strlit("计划...\r\n");
    reveal_strlit("录制计划...\r\n");
    reveal_strlit("截图计划...\r\n");
    let said = output_notice(url, path);
    let n = "[tool] 已解析浏览器目标："@.len() as int;
    assert(said.subrange(n, n + url.len() + 2) =~= url + "\r\n"@);
    assert(matches_at(said, url + "\r\n"@, n));
    let m = n + url.len() + "\r\n[tool] 输出位置："@.len();
    assert(said.subrange(m, m + path.len() + 2) =~= path + "\r\n"@);
    assert(matches_at(said, path + "\r\n"@, m));
    let done = written_notice(seconds, path);
    let tail = path + "\r\n"@;
    assert(done.subrange(done.len() - tail.len(), done.len() as int) =~= tail);
    let plan = planning_notice(seconds);
    if seconds > 0 {
        assert(done.subrange(0, 13) =~= "[tool] 页面录制完成"@);
        assert(plan.subrange(plan.len() - 9, plan.len() as int) =~= "录制计划...\r\n"@);
    } else {
        assert(done.subrange(0, 13) =~= "[tool] 页面截图完成"@);
        assert(plan.subrange(plan.len() - 9, plan.len() as int) =~= "截图计划...\r\n"@);
    }
}

/// A picture is taken by a command that gets the address and the path; a script is named by
/// its time, and two scripts of different times have different names.
pub proof fn law_pictures_are_taken_of_the_address(
    url: Seq<char>,
    output: Seq<char>,
    a: nat,
    b: nat,
)
    ensures
        ({
            let args = picture_args(url, output);
            &&& args.len() == 7
            &&& args[0] == "playwright"@ && args[1] == "screenshot"@
            &&& args[2] == "--browser=chromium"@ && args[3] == "--channel=chrome"@
            &&& args[4] == "--timeout=90000"@
            &&& args[5] == url
            &&& args[6] == output
        }),
        ends(script_name(a as int), ".cjs"@),
        script_name(a as int) == script_name(b as int) ==> a == b,
{
    let x = script_name(a as int);
    let y = script_name(b as int);
    assert(x.subrange(x.len() - ".cjs"@.len(), x.len() as int) =~= ".cjs"@);
    if x == y {
        let n = "playwright-shot-"@.len() as int;
        assert(x.subrange(n, x.len() - ".cjs"@.len()) =~= decimal(a as int));
        assert(y.subrange(n, y.len() - ".cjs"@.len()) =~= decimal(b as int));
        let top = if a > b {
            a
        } else {
            b
        };
        law_decimal_reads_back(a, top);
        law_decimal_reads_back(b, top);
    }
}

/// The tool that runs packages has two usual places and three names, tried in this order.
pub proof fn law_the_tool_has_its_places_and_names(k: int)
    requires
        0 <= k < 3,
    ensures
        k == 0 ==> npx_place(k) == "C:\\Program Files\\nodejs\\npx.cmd"@,
        k == 1 ==> npx_place(k) == "C:\\Program Files (x86)\\nodejs\\npx.cmd"@,
        k == 0 ==> npx_name(k) == "npx.cmd"@,
        k == 1 ==> npx_name(k) == "npx.exe"@,
        k == 2 ==> npx_name(k) == "npx"@,
{
}

} // verus!
