//! Starting a terminal: which program runs, with which arguments and environment, and
//! which way a request takes.

use vstd::prelude::*;
use crate::chat::{base_of, chat_completions_url, chat_url, normalize_base_url};
use crate::clock::utc_millis;
use crate::number::{decimal, i64_text, law_decimal_reads_back};
use crate::request::{
    current_user_request, user_request, wants_recording, wants_screenshot, wants_tool, wording,
    Wording,
};
use crate::schedule::{option_args, push_option};
use crate::search::{contains_text, ends, matches_at, starts};
use crate::settings::{Settings, TerminalOptions};
use crate::split::{join, joined};
use crate::text::{
    ascii_lower, lemma_views_push, listed, lowered, same, same_ignoring_case, trim_str, trimmed,
    views,
};

verus! {

/// What came of starting a terminal.
pub struct TerminalStartResult {
    pub ok: bool,
    pub error: String,
    pub pid: Option<u32>,
    pub session_id: Option<String>,
    pub final_output: Option<String>,
    pub exit_code: Option<i32>,
}

/// The answer when a terminal has started.
pub fn started(session_id: String, pid: Option<u32>) -> (r: TerminalStartResult)
    ensures
        r.ok,
        r.error@.len() == 0,
        r.pid == pid,
        r.session_id == Some(session_id),
        r.final_output is None,
        r.exit_code is None,
{
    TerminalStartResult {
        ok: true,
        error: String::new(),
        pid,
        session_id: Some(session_id),
        final_output: None,
        exit_code: None,
    }
}

/// The name of a session that starts at a time.
pub open spec fn session_name(millis: int) -> Seq<char> {
    "session_"@ + decimal(millis)
}

/// The name of a session that starts now.
pub fn new_session() -> (r: String)
    ensures
        exists|millis: int| millis >= 0 && r@ == #[trigger] session_name(millis),
{
    let millis: i64 = utc_millis();
    name_session(millis)
}

/// The name of a session that starts at a time.
pub fn name_session(millis: i64) -> (r: String)
    ensures
        r@ == session_name(millis as int),
{
    let mut out = "session_".to_string();
    out.append(i64_text(millis).as_str());
    assert(out@ == session_name(millis as int));
    out
}

/// The program that the settings choose. `bundled` is the one that comes along.
pub open spec fn chosen_binary(mode: Seq<char>, custom: Seq<char>, bundled: Seq<char>) -> Seq<char> {
    if mode == "system"@ {
        "deepseek"@
    } else if mode == "custom"@ && custom.len() > 0 {
        custom
    } else {
        bundled
    }
}

/// The program that the settings choose.
pub fn choose_binary(settings: &Settings, bundled: &str) -> (r: String)
    ensures
        r@ == chosen_binary(settings.binary_mode@, settings.custom_binary_path@, bundled@),
{
    if same(settings.binary_mode.as_str(), "system") {
        "deepseek".to_string()
    } else if same(settings.binary_mode.as_str(), "custom")
        && !settings.custom_binary_path.as_str().is_empty() {
        settings.custom_binary_path.clone()
    } else {
        bundled.to_string()
    }
}

/// The file is the program with a user interface of its own.
pub open spec fn is_tui(file_name: Seq<char>) -> bool {
    file_name.map_values(|c: char| ascii_lower(c)) == "deepseek-tui.exe"@
}

/// Tells whether a file is the program with a user interface of its own.
pub fn names_tui(file_name: &str) -> (r: bool)
    ensures
        r == is_tui(file_name@),
{
    proof {
        reveal_strlit("deepseek-tui.exe");
        assert("deepseek-tui.exe"@.map_values(|c: char| ascii_lower(c)) =~= "deepseek-tui.exe"@);
    }
    same_ignoring_case(file_name, "deepseek-tui.exe")
}

/// The program that runs: the one for commands in place of the one with a user interface
/// of its own, if it is there.
pub open spec fn run_binary(
    binary: Seq<char>,
    file_name: Option<Seq<char>>,
    facade: Option<Seq<char>>,
) -> Seq<char> {
    match (file_name, facade) {
        (Some(name), Some(path)) if is_tui(name) => path,
        _ => binary,
    }
}

/// A text that may be missing.
pub open spec fn text_view(text: Option<&str>) -> Option<Seq<char>> {
    match text {
        Some(s) => Some(s@),
        None => None,
    }
}

/// The program that runs: in place of the one with a user interface of its own the one
/// for commands beside it, if it is there. `file_name` is the last part of the chosen
/// path, `facade` the path of the other program if it is there.
pub fn command_binary(binary: &str, file_name: Option<&str>, facade: Option<&str>) -> (r: String)
    ensures
        r@ == match (file_name, facade) {
            (Some(name), Some(path)) if is_tui(name@) => path@,
            _ => binary@,
        },
        r@ == run_binary(binary@, text_view(file_name), text_view(facade)),
{
    if let Some(name) = file_name {
        if names_tui(name) {
            if let Some(path) = facade {
                return path.to_string();
            }
        }
    }
    binary.to_string()
}

/// The language in which the agent is told to answer.
pub open spec fn language_rule(language: Seq<char>) -> Seq<char> {
    if language == "zh"@ {
        "请使用简体中文回答，除非用户明确要求其他语言。"@
    } else {
        "Please answer in English unless the user explicitly asks for another language."@
    }
}

/// The language in which the agent is told to answer.
pub fn language_instruction(language: &str) -> (r: &'static str)
    ensures
        r@ == language_rule(language@),
{
    if same(language, "zh") {
        "请使用简体中文回答，除非用户明确要求其他语言。"
    } else {
        "Please answer in English unless the user explicitly asks for another language."
    }
}

/// The action hands a prompt to the agent.
pub open spec fn is_agent_action(action: Seq<char>) -> bool {
    action == "exec"@ || action == "plan"@ || action == "yolo"@
}

/// Tells whether an action hands a prompt to the agent.
pub fn hands_prompt(action: &str) -> (r: bool)
    ensures
        r == is_agent_action(action@),
{
    same(action, "exec") || same(action, "plan") || same(action, "yolo")
}

/// What the agent is told besides the user's prompt, by the action.
pub open spec fn action_rule(action: Seq<char>) -> Seq<char> {
    if action == "plan"@ {
        "\n请只输出实施计划和风险点，不要修改文件或执行破坏性操作。\n\n"@
    } else if action == "yolo"@ {
        "\n在当前 workspace 中完成用户请求。可以进行必要的代码修改和验证；遇到高风险或破坏性操作时先说明原因。\n\n"@
    } else {
        "\n\n"@
    }
}

/// The prompt that the agent gets: the language, what the action asks for, the skills,
/// the memory, and what the user typed in.
pub open spec fn full_prompt(
    language: Seq<char>,
    action: Seq<char>,
    skills: Seq<char>,
    memory: Seq<char>,
    prompt: Seq<char>,
) -> Seq<char> {
    language_rule(language) + action_rule(action) + skills + memory + prompt
}

/// The prompt that the agent gets.
pub fn agent_prompt(language: &str, action: &str, skills: &str, memory: &str, prompt: &str) -> (r:
    String)
    ensures
        r@ == full_prompt(language@, action@, skills@, memory@, prompt@),
{
    let mut out = language_instruction(language).to_string();
    if same(action, "plan") {
        out.append("\n请只输出实施计划和风险点，不要修改文件或执行破坏性操作。\n\n");
    } else if same(action, "yolo") {
        out.append(
            "\n在当前 workspace 中完成用户请求。可以进行必要的代码修改和验证；遇到高风险或破坏性操作时先说明原因。\n\n",
        );
    } else {
        out.append("\n\n");
    }
    out.append(skills);
    out.append(memory);
    out.append(prompt);
    out
}

/// The arguments that name the service and the model.
pub open spec fn service_args(settings: Settings) -> Seq<Seq<char>> {
    option_args("--provider"@, trimmed(settings.provider@)) + option_args(
        "--model"@,
        trimmed(settings.model@),
    ) + option_args("--base-url"@, base_of(settings.base_url@))
}

/// The option that switches the tool servers on.
pub open spec fn mcp_args(enabled: bool) -> Seq<Seq<char>> {
    if enabled {
        seq!["--enable"@, "mcp"@]
    } else {
        seq![]
    }
}

/// The arguments that say what the program does.
pub open spec fn action_args(
    action: Seq<char>,
    workspace: Seq<char>,
    prompt: Seq<char>,
    mcp: bool,
) -> Seq<Seq<char>> {
    if action == "continue"@ {
        seq!["run"@, "--workspace"@, workspace, "--continue"@]
    } else if action == "doctor"@ {
        seq!["doctor"@]
    } else if action == "setup"@ {
        seq!["setup"@]
    } else if is_agent_action(action) {
        seq!["exec"@] + mcp_args(mcp) + seq!["--auto"@, prompt]
    } else {
        seq!["run"@, "--workspace"@, workspace] + mcp_args(mcp)
    }
}

/// The arguments of the program. `prompt` is the one that the agent gets.
pub open spec fn terminal_args(
    settings: Settings,
    action: Seq<char>,
    workspace: Seq<char>,
    prompt: Seq<char>,
) -> Seq<Seq<char>> {
    service_args(settings) + action_args(action, workspace, prompt, settings.mcp_enabled)
}

fn push_mcp(args: &mut Vec<String>, enabled: bool)
    ensures
        views(final(args)@) == views(old(args)@) + mcp_args(enabled),
{
    broadcast use lemma_views_push;

    if enabled {
        args.push("--enable".to_string());
        args.push("mcp".to_string());
    }
    assert(views(args@) =~= views(old(args)@) + mcp_args(enabled));
}

/// The arguments of the program.
pub fn make_terminal_args(settings: &Settings, action: &str, workspace: &str, prompt: &str) -> (r:
    Vec<String>)
    ensures
        views(r@) == terminal_args(*settings, action@, workspace@, prompt@),
{
    broadcast use lemma_views_push;

    let mut args: Vec<String> = Vec::new();
    assert(views(args@) =~= seq![]);
    push_option(&mut args, "--provider", trim_str(settings.provider.as_str()).as_str());
    push_option(&mut args, "--model", trim_str(settings.model.as_str()).as_str());
    push_option(&mut args, "--base-url", normalize_base_url(settings.base_url.as_str()).as_str());
    assert(views(args@) =~= service_args(*settings));
    if same(action, "continue") {
        args.push("run".to_string());
        args.push("--workspace".to_string());
        args.push(workspace.to_string());
        args.push("--continue".to_string());
    } else if same(action, "doctor") {
        args.push("doctor".to_string());
    } else if same(action, "setup") {
        args.push("setup".to_string());
    } else if hands_prompt(action) {
        args.push("exec".to_string());
        push_mcp(&mut args, settings.mcp_enabled);
        args.push("--auto".to_string());
        args.push(prompt.to_string());
    } else {
        args.push("run".to_string());
        args.push("--workspace".to_string());
        args.push(workspace.to_string());
        push_mcp(&mut args, settings.mcp_enabled);
    }
    assert(views(args@) =~= terminal_args(*settings, action@, workspace@, prompt@));
    args
}

/// What the user typed in reaches the agent whole, as the end of the last argument.
pub proof fn law_prompts_reach_the_agent(
    settings: Settings,
    action: Seq<char>,
    workspace: Seq<char>,
    skills: Seq<char>,
    memory: Seq<char>,
    prompt: Seq<char>,
)
    requires
        is_agent_action(action),
    ensures
        ({
            let full = full_prompt(settings.language@, action, skills, memory, prompt);
            let args = terminal_args(settings, action, workspace, full);
            &&& args.len() > 0
            &&& args.last() == full
            &&& ends(full, prompt)
        }),
{
    reveal_strlit("exec");
    reveal_strlit("plan");
    reveal_strlit("yolo");
    reveal_strlit("continue");
    reveal_strlit("doctor");
    reveal_strlit("setup");
    let full = full_prompt(settings.language@, action, skills, memory, prompt);
    assert(full.subrange(full.len() - prompt.len(), full.len() as int) =~= prompt);
    assert("setup"@.len() == 5);
    assert(action.len() == 4);
}

/// The way that a request takes.
#[derive(Clone, Copy, Debug, PartialEq, Eq, Structural)]
pub enum Route {
    /// The browser is run here.
    Browser,
    /// The chat service is asked for a streamed answer.
    Stream,
    /// The program runs in a terminal, and its output is kept; with tool servers or
    /// without.
    Agent(bool),
    /// The program runs in a terminal of the user.
    Terminal,
}

/// The way that a request takes. `text` and `lower` are the wording of what the user
/// asks for.
pub open spec fn route(
    settings: Settings,
    action: Seq<char>,
    text: Seq<char>,
    lower: Seq<char>,
) -> Route {
    let tool = settings.mcp_enabled && wants_tool(text, lower);
    if !is_agent_action(action) {
        Route::Terminal
    } else if settings.mcp_enabled && views(settings.enabled_mcp_servers@).contains("playwright"@)
        && (wants_screenshot(text, lower) || wants_recording(text, lower)) {
        Route::Browser
    } else if trimmed(settings.provider@) == "deepseek"@ && !tool {
        Route::Stream
    } else {
        Route::Agent(tool)
    }
}

impl Wording {
    /// The way that a request of this wording takes.
    pub fn route(&self, settings: &Settings, action: &str) -> (r: Route)
        ensures
            r == route(*settings, action@, self.text@, self.lower@),
    {
        if !hands_prompt(action) {
            return Route::Terminal;
        }
        if settings.mcp_enabled && listed(&settings.enabled_mcp_servers, "playwright") && (
        self.wants_screenshot() || self.wants_recording()) {
            return Route::Browser;
        }
        let tool = settings.mcp_enabled && self.wants_tool();
        let provider = trim_str(settings.provider.as_str());
        if same(provider.as_str(), "deepseek") && !tool {
            Route::Stream
        } else {
            Route::Agent(tool)
        }
    }
}

/// The way that a prompt takes.
pub fn choose_route(settings: &Settings, options: &TerminalOptions) -> (r: Route)
    ensures
        r == route(
            *settings,
            options.launch_action@,
            user_request(options.agent_prompt@),
            lowered(user_request(options.agent_prompt@)),
        ),
{
    let asked = current_user_request(options.agent_prompt.as_str());
    wording(asked.as_str()).route(settings, options.launch_action.as_str())
}

/// With tool servers a program is run only where they are switched on and the request
/// asks for a tool; no other way leads there.
pub proof fn law_tools_are_used_on_request(
    settings: Settings,
    action: Seq<char>,
    text: Seq<char>,
    lower: Seq<char>,
)
    ensures
        route(settings, action, text, lower) matches Route::Agent(tool) ==> tool == (
        settings.mcp_enabled && wants_tool(text, lower)),
        !settings.mcp_enabled ==> route(settings, action, text, lower) != Route::Browser && route(
            settings,
            action,
            text,
            lower,
        ) != Route::Agent(true),
        (route(settings, action, text, lower) == Route::Terminal) == !is_agent_action(action),
{
}

/// What the user is told when a request goes to the tool servers.
pub open spec fn mcp_notice(servers: Seq<Seq<char>>, config: Option<Seq<char>>) -> Seq<char> {
    "[tool] MCP 路由：该请求需要外部工具，已选择 deepseek CLI + MCP 执行。\r\n[tool] MCP servers: "@
        + (if servers.len() == 0 {
        "(custom config)"@
    } else {
        joined(servers, ","@)
    }) + "\r\n[tool] MCP config: "@ + (match config {
        Some(path) => path,
        None => "(none)"@,
    }) + "\r\n"@
}

/// What the user is told when a request goes to the tool servers.
pub fn tell_mcp(settings: &Settings, config: Option<&str>) -> (r: String)
    ensures
        r@ == mcp_notice(
            views(settings.enabled_mcp_servers@),
            match config {
                Some(path) => Some(path@),
                None => None,
            },
        ),
{
    let mut out =
        "[tool] MCP 路由：该请求需要外部工具，已选择 deepseek CLI + MCP 执行。\r\n[tool] MCP servers: ".to_string();
    if settings.enabled_mcp_servers.len() == 0 {
        out.append("(custom config)");
    } else {
        out.append(join(&settings.enabled_mcp_servers, ",").as_str());
    }
    out.append("\r\n[tool] MCP config: ");
    match config {
        Some(path) => out.append(path),
        None => out.append("(none)"),
    }
    out.append("\r\n");
    out
}

/// What the user is told when the program with tool servers has started.
pub const MCP_STARTED: &'static str = "[tool] 已启动 MCP CLI 进程，正在等待模型规划和工具调用输出...\r\n";

/// What the user is told when a streamed answer begins.
pub open spec fn stream_notice(model: Seq<char>, base_url: Seq<char>) -> Seq<char> {
    "DeepSeek stream started: model="@ + model + ", url="@ + chat_url(base_url) + "\r\n\r\n"@
}

/// What the user is told when a streamed answer begins.
pub fn tell_stream(model: &str, base_url: &str) -> (r: String)
    ensures
        r@ == stream_notice(model@, base_url@),
{
    let mut out = "DeepSeek stream started: model=".to_string();
    out.append(model);
    out.append(", url=");
    out.append(chat_completions_url(base_url).as_str());
    out.append("\r\n\r\n");
    out
}

/// The views of a list of variables.
pub open spec fn env_views(list: Seq<(String, String)>) -> Seq<(Seq<char>, Seq<char>)> {
    list.map_values(|e: (String, String)| (e.0@, e.1@))
}

/// A variable, where it has a value.
pub open spec fn env_if(name: Seq<char>, value: Seq<char>) -> Seq<(Seq<char>, Seq<char>)> {
    if value.len() == 0 {
        seq![]
    } else {
        seq![(name, value)]
    }
}

/// The variables with the key, by the service.
pub open spec fn key_env(provider: Seq<char>, key: Seq<char>) -> Seq<(Seq<char>, Seq<char>)> {
    if provider == "nvidia-nim"@ {
        env_if("NVIDIA_API_KEY"@, key) + env_if("NVIDIA_NIM_API_KEY"@, key)
    } else {
        env_if("DEEPSEEK_API_KEY"@, key)
    }
}

/// The variables that the program gets. `config` is the path of the configuration of
/// the tool servers, `skills_dir` that of the directory with the skills.
pub open spec fn terminal_env(
    settings: Settings,
    key: Seq<char>,
    config: Option<Seq<char>>,
    skills_dir: Seq<char>,
) -> Seq<(Seq<char>, Seq<char>)> {
    let provider = trimmed(settings.provider@);
    seq![("TERM"@, "xterm-256color"@), ("COLORTERM"@, "truecolor"@)] + key_env(provider, key)
        + env_if("DEEPSEEK_BASE_URL"@, base_of(settings.base_url@)) + env_if(
        "DEEPSEEK_MODEL"@,
        trimmed(settings.model@),
    ) + env_if("DEEPSEEK_PROVIDER"@, provider) + (match config {
        Some(path) => seq![
            ("DEEPSEEK_MCP_CONFIG"@, path),
            (
                "DEEPSEEK_DESKTOP_ENABLED_MCP"@,
                joined(views(settings.enabled_mcp_servers@), ","@),
            ),
        ],
        None => seq![],
    }) + (if settings.skills_enabled {
        seq![
            ("DEEPSEEK_SKILLS_DIR"@, skills_dir),
            (
                "DEEPSEEK_DESKTOP_ENABLED_SKILLS"@,
                joined(views(settings.enabled_skills@), ","@),
            ),
        ]
    } else {
        seq![]
    })
}

fn push_env(env: &mut Vec<(String, String)>, name: &str, value: &str)
    ensures
        env_views(final(env)@) == env_views(old(env)@).push((name@, value@)),
{
    let ghost before = env@;
    env.push((name.to_string(), value.to_string()));
    assert(env_views(env@) =~= env_views(before).push((name@, value@)));
}

fn push_env_if(env: &mut Vec<(String, String)>, name: &str, value: &str)
    ensures
        env_views(final(env)@) == env_views(old(env)@) + env_if(name@, value@),
{
    if !value.is_empty() {
        push_env(env, name, value);
    }
    assert(env_views(env@) =~= env_views(old(env)@) + env_if(name@, value@));
}

/// The variables that the program gets.
pub fn make_terminal_env(
    settings: &Settings,
    api_key: &str,
    config: Option<&str>,
    skills_dir: &str,
) -> (r: Vec<(String, String)>)
    ensures
        env_views(r@) == terminal_env(
            *settings,
            api_key@,
            match config {
                Some(path) => Some(path@),
                None => None,
            },
            skills_dir@,
        ),
{
    let provider = trim_str(settings.provider.as_str());
    let model = trim_str(settings.model.as_str());
    let mut env: Vec<(String, String)> = Vec::new();
    assert(env_views(env@) =~= seq![]);
    push_env(&mut env, "TERM", "xterm-256color");
    push_env(&mut env, "COLORTERM", "truecolor");
    let ghost first = seq![("TERM"@, "xterm-256color"@), ("COLORTERM"@, "truecolor"@)];
    assert(env_views(env@) =~= first);
    if same(provider.as_str(), "nvidia-nim") {
        push_env_if(&mut env, "NVIDIA_API_KEY", api_key);
        push_env_if(&mut env, "NVIDIA_NIM_API_KEY", api_key);
    } else {
        push_env_if(&mut env, "DEEPSEEK_API_KEY", api_key);
    }
    assert(env_views(env@) =~= first + key_env(provider@, api_key@));
    push_env_if(&mut env, "DEEPSEEK_BASE_URL", normalize_base_url(settings.base_url.as_str()).as_str());
    push_env_if(&mut env, "DEEPSEEK_MODEL", model.as_str());
    push_env_if(&mut env, "DEEPSEEK_PROVIDER", provider.as_str());
    if let Some(path) = config {
        push_env(&mut env, "DEEPSEEK_MCP_CONFIG", path);
        push_env(
            &mut env,
            "DEEPSEEK_DESKTOP_ENABLED_MCP",
            join(&settings.enabled_mcp_servers, ",").as_str(),
        );
    }
    if settings.skills_enabled {
        push_env(&mut env, "DEEPSEEK_SKILLS_DIR", skills_dir);
        push_env(
            &mut env,
            "DEEPSEEK_DESKTOP_ENABLED_SKILLS",
            join(&settings.enabled_skills, ",").as_str(),
        );
    }
    assert(env_views(env@) =~= terminal_env(
        *settings,
        api_key@,
        match config {
            Some(path) => Some(path@),
            None => None,
        },
        skills_dir@,
    ));
    env
}

/// The rows and columns of a terminal, kept in 16 bits.
pub fn terminal_size(options: &TerminalOptions) -> (r: (u16, u16))
    ensures
        r.0 == options.rows as u16,
        r.1 == options.cols as u16,
{
    (#[verifier::truncate] (options.rows as u16), #[verifier::truncate] (options.cols as u16))
}

/// The exit code that is reported.
pub open spec fn exit_number(code: Option<u32>) -> int {
    match code {
        Some(c) => if c <= i32::MAX {
            c as int
        } else {
            c - 0x1_0000_0000
        },
        None => -1,
    }
}

/// The exit code that is reported: that of the program, kept in 32 bits with sign, or
/// minus one where there is none.
pub fn reported_exit(code: Option<u32>) -> (r: i32)
    ensures
        r == match code {
            Some(c) => c as i32,
            None => -1i32,
        },
        r == exit_number(code),
{
    if let Some(c) = code {
        assert(c <= 0x7fff_ffff ==> c as i32 == c) by (bit_vector);
        assert(c > 0x7fff_ffff ==> c as i32 == c - 0x1_0000_0000) by (bit_vector);
    }
    match code {
        Some(c) => #[verifier::truncate] (c as i32),
        None => -1,
    }
}

/// The end of a session: its exit code and what it printed.
pub struct TerminalCompletedResult {
    pub session_id: String,
    pub exit_code: i32,
    pub final_output: String,
}

/// The sessions that have ended and that nobody has asked for yet, each once.
pub struct ResultTable {
    pub results: Vec<TerminalCompletedResult>,
}

impl ResultTable {
    /// The sessions that have ended.
    pub open spec fn sessions(self) -> Seq<Seq<char>> {
        self.results@.map_values(|r: TerminalCompletedResult| r.session_id@)
    }

    /// Each session stands in the table once.
    pub open spec fn wf(self) -> bool {
        self.sessions().no_duplicates()
    }

    /// The end of a session, if it stands in the table.
    pub open spec fn result(self, session: Seq<char>) -> Option<(int, Seq<char>)> {
        if self.sessions().contains(session) {
            let r = self.results@[self.sessions().index_of(session)];
            Some((r.exit_code as int, r.final_output@))
        } else {
            None
        }
    }

    /// A table without sessions.
    pub fn new() -> (r: ResultTable)
        ensures
            r.wf(),
            r.sessions().len() == 0,
    {
        ResultTable { results: Vec::new() }
    }

    fn place(&self, session_id: &str) -> (r: Option<usize>)
        requires
            self.wf(),
        ensures
            match r {
                Some(k) => k < self.results@.len() && self.sessions()[k as int] == session_id@
                    && self.sessions().index_of(session_id@) == k as int
                    && self.sessions().contains(session_id@),
                None => !self.sessions().contains(session_id@),
            },
    {
        let mut i: usize = 0;
        while i < self.results.len()
            invariant
                i <= self.results@.len(),
                self.wf(),
                forall|k: int| 0 <= k < i ==> #[trigger] self.sessions()[k] != session_id@,
            decreases self.results@.len() - i,
        {
            if same(self.results[i].session_id.as_str(), session_id) {
                proof {
                    assert(self.sessions()[i as int] == session_id@);
                    assert(self.sessions().contains(session_id@));
                    let k = self.sessions().index_of(session_id@);
                    assert(self.sessions()[k] == session_id@);
                }
                return Some(i);
            }
            i = i + 1;
        }
        None
    }

    /// Writes down the end of a session, in place of what stood there for it.
    pub fn insert(&mut self, session_id: &str, exit_code: i32, final_output: &str)
        requires
            old(self).wf(),
        ensures
            final(self).wf(),
            final(self).result(session_id@) == Some((exit_code as int, final_output@)),
            forall|other: Seq<char>|
                other != session_id@ ==> #[trigger] final(self).result(other) == old(self).result(
                    other,
                ),
    {
        let entry = TerminalCompletedResult {
            session_id: session_id.to_string(),
            exit_code,
            final_output: final_output.to_string(),
        };
        let ghost before = *self;
        match self.place(session_id) {
            Some(k) => {
                self.results.set(k, entry);
                proof {
                    assert(self.sessions() =~= before.sessions());
                    assert forall|other: Seq<char>| other != session_id@ implies #[trigger]
                    self.result(other) == before.result(other) by {
                        if before.sessions().contains(other) {
                            let j = before.sessions().index_of(other);
                            assert(before.sessions()[j] == other);
                        }
                    }
                }
            },
            None => {
                self.results.push(entry);
                proof {
                    let n = before.results@.len() as int;
                    assert(self.sessions() =~= before.sessions().push(session_id@));
                    assert(self.sessions()[n] == session_id@);
                    assert(self.wf()) by {
                        assert forall|i: int, j: int|
                            0 <= i < self.sessions().len() && 0 <= j < self.sessions().len() && i
                                != j implies self.sessions()[i] != self.sessions()[j] by {
                            if i < n && j < n {
                                assert(before.sessions()[i] != before.sessions()[j]);
                            } else if i < n {
                                assert(before.sessions().contains(before.sessions()[i]));
                            } else {
                                assert(before.sessions().contains(before.sessions()[j]));
                            }
                        }
                    }
                    let at = self.sessions().index_of(session_id@);
                    assert(self.sessions().contains(session_id@));
                    assert(self.sessions()[at] == session_id@);
                    assert(at == n);
                    assert forall|other: Seq<char>| other != session_id@ implies #[trigger]
                    self.result(other) == before.result(other) by {
                        if before.sessions().contains(other) {
                            let j = before.sessions().index_of(other);
                            assert(before.sessions()[j] == other);
                            assert(self.sessions()[j] == other);
                            assert(self.sessions().contains(other));
                            let m = self.sessions().index_of(other);
                            assert(self.sessions()[m] == other);
                            assert(m == j);
                        } else if self.sessions().contains(other) {
                            let m = choose|m: int|
                                0 <= m < self.sessions().len() && self.sessions()[m] == other;
                            assert(before.sessions()[m] == other);
                        }
                    }
                }
            },
        }
    }

    /// Takes the end of a session out of the table.
    pub fn take(&mut self, session_id: &str) -> (r: Option<TerminalCompletedResult>)
        requires
            old(self).wf(),
        ensures
            final(self).wf(),
            match (r, old(self).result(session_id@)) {
                (Some(entry), Some(result)) => entry.session_id@ == session_id@ && (
                    entry.exit_code as int,
                    entry.final_output@,
                ) == result,
                (None, None) => true,
                _ => false,
            },
            final(self).result(session_id@) is None,
            forall|other: Seq<char>|
                other != session_id@ ==> #[trigger] final(self).result(other) == old(self).result(
                    other,
                ),
    {
        let ghost before = *self;
        match self.place(session_id) {
            Some(k) => {
                let entry = self.results.remove(k);
                proof {
                    let old_list = before.sessions();
                    let new_list = self.sessions();
                    assert(new_list =~= old_list.remove(k as int));
                    assert(self.wf()) by {
                        assert forall|i: int, j: int|
                            0 <= i < new_list.len() && 0 <= j < new_list.len() && i
                                != j implies new_list[i] != new_list[j] by {
                            let a = if i < k {
                                i
                            } else {
                                i + 1
                            };
                            let b = if j < k {
                                j
                            } else {
                                j + 1
                            };
                            assert(old_list[a] != old_list[b]);
                        }
                    }
                    assert(!new_list.contains(session_id@)) by {
                        if new_list.contains(session_id@) {
                            let m = choose|m: int|
                                0 <= m < new_list.len() && new_list[m] == session_id@;
                            let a = if m < k {
                                m
                            } else {
                                m + 1
                            };
                            assert(old_list[a] == session_id@);
                            assert(old_list[a] == old_list[k as int]);
                        }
                    }
                    assert forall|other: Seq<char>| other != session_id@ implies #[trigger]
                    self.result(other) == before.result(other) by {
                        if old_list.contains(other) {
                            let j = old_list.index_of(other);
                            assert(old_list[j] == other);
                            let b = if j < k {
                                j
                            } else {
                                j - 1
                            };
                            assert(new_list[b] == other);
                            assert(new_list.contains(other));
                            let m = new_list.index_of(other);
                            assert(new_list[m] == other);
                            assert(m == b);
                        } else if new_list.contains(other) {
                            let m = choose|m: int| 0 <= m < new_list.len() && new_list[m] == other;
                            let a = if m < k {
                                m
                            } else {
                                m + 1
                            };
                            assert(old_list[a] == other);
                        }
                    }
                }
                Some(entry)
            },
            None => None,
        }
    }
}

/// The end of a session, for whoever asks for it first; there is none without a name.
pub fn terminal_result(table: &mut ResultTable, session_id: &str) -> (r: Option<
    TerminalCompletedResult,
>)
    requires
        old(table).wf(),
    ensures
        final(table).wf(),
        session_id@.len() == 0 ==> r is None && *final(table) == *old(table),
        session_id@.len() > 0 ==> {
            &&& match (r, old(table).result(session_id@)) {
                (Some(entry), Some(result)) => entry.session_id@ == session_id@ && (
                    entry.exit_code as int,
                    entry.final_output@,
                ) == result,
                (None, None) => true,
                _ => false,
            }
            &&& final(table).result(session_id@) is None
        },
        forall|other: Seq<char>|
            other != session_id@ ==> #[trigger] final(table).result(other) == old(table).result(
                other,
            ),
{
    if session_id.is_empty() {
        return None;
    }
    table.take(session_id)
}

/// The program is the system's, the user's or the one that comes with this one, as the
/// settings say; where the user's is not given, the one that comes with this one is taken.
pub proof fn law_programs_are_chosen_by_the_settings(
    mode: Seq<char>,
    custom: Seq<char>,
    bundled: Seq<char>,
)
    ensures
        mode == "system"@ ==> chosen_binary(mode, custom, bundled) == "deepseek"@,
        mode == "custom"@ && custom.len() > 0 ==> chosen_binary(mode, custom, bundled) == custom,
        mode == "custom"@ && custom.len() == 0 ==> chosen_binary(mode, custom, bundled) == bundled,
        mode != "system"@ && mode != "custom"@ ==> chosen_binary(mode, custom, bundled) == bundled,
{
    reveal_strlit("system");
    reveal_strlit("custom");
    assert("system"@[0] == 's' && "custom"@[0] == 'c');
}

/// The file of the terminal program is known by its name in any case.
pub proof fn law_the_terminal_program_is_known_by_name(s: Seq<char>)
    ensures
        is_tui(s) == (s.len() == "deepseek-tui.exe"@.len() && (forall|i: int|
            0 <= i < s.len() ==> ascii_lower(#[trigger] s[i]) == "deepseek-tui.exe"@[i])),
{
    let low = s.map_values(|c: char| ascii_lower(c));
    if s.len() == "deepseek-tui.exe"@.len() && (forall|i: int|
        0 <= i < s.len() ==> ascii_lower(#[trigger] s[i]) == "deepseek-tui.exe"@[i]) {
        assert(low =~= "deepseek-tui.exe"@);
    }
    if low == "deepseek-tui.exe"@ {
        assert forall|i: int| 0 <= i < s.len() implies ascii_lower(#[trigger] s[i])
            == "deepseek-tui.exe"@[i] by {
            assert(low[i] == ascii_lower(s[i]));
        }
    }
}

/// Three actions hand the prompt to the agent; the two that are more than to run it say
/// what it may do.
pub proof fn law_actions_say_what_the_agent_may_do(action: Seq<char>)
    ensures
        action == "exec"@ ==> is_agent_action(action),
        action == "plan"@ ==> is_agent_action(action),
        action == "yolo"@ ==> is_agent_action(action),
        action != "exec"@ && action != "plan"@ && action != "yolo"@ ==> !is_agent_action(action),
        action == "plan"@ ==> starts(action_rule(action), "\n请只输出实施计划"@),
        action == "yolo"@ ==> starts(action_rule(action), "\n在当前 workspace 中完成用户请求"@),
        action != "plan"@ && action != "yolo"@ ==> action_rule(action) == "\n\n"@,
        ends(action_rule(action), "\n\n"@),
{
    reveal_strlit("plan");
    reveal_strlit("yolo");
    assert("plan"@[0] == 'p' && "yolo"@[0] == 'y');
    reveal_strlit("\n\n");
    reveal_strlit("\n请只输出实施计划");
    reveal_strlit("\n在当前 workspace 中完成用户请求");
    reveal_strlit("\n请只输出实施计划和风险点，不要修改文件或执行破坏性操作。\n\n");
    reveal_strlit("\n在当前 workspace 中完成用户请求。可以进行必要的代码修改和验证；遇到高风险或破坏性操作时先说明原因。\n\n");
    let rule = action_rule(action);
    if action == "plan"@ {
        assert(rule.subrange(0, "\n请只输出实施计划"@.len() as int) =~= "\n请只输出实施计划"@);
    }
    if action == "yolo"@ {
        assert(rule.subrange(0, "\n在当前 workspace 中完成用户请求"@.len() as int)
            =~= "\n在当前 workspace 中完成用户请求"@);
    }
    assert(rule.subrange(rule.len() - 2, rule.len() as int) =~= "\n\n"@);
}

/// The agent is told first in which language to answer and what it may do; the skills, the
/// memory and what the user typed follow in this order, as they are.
pub proof fn law_prompts_are_put_together_in_order(
    language: Seq<char>,
    action: Seq<char>,
    skills: Seq<char>,
    memory: Seq<char>,
    prompt: Seq<char>,
)
    ensures
        full_prompt(language, action, skills, memory, prompt) == language_rule(language)
            + action_rule(action) + (skills + memory + prompt),
        language == "zh"@ ==> starts(
            full_prompt(language, action, skills, memory, prompt),
            "请使用简体中文回答"@,
        ),
        language != "zh"@ ==> starts(
            full_prompt(language, action, skills, memory, prompt),
            "Please answer in English"@,
        ),
{
    let full = full_prompt(language, action, skills, memory, prompt);
    assert(full =~= language_rule(language) + action_rule(action) + (skills + memory + prompt));
    reveal_strlit("请使用简体中文回答，除非用户明确要求其他语言。");
    reveal_strlit("请使用简体中文回答");
    reveal_strlit("Please answer in English unless the user explicitly asks for another language.");
    reveal_strlit("Please answer in English");
    if language == "zh"@ {
        assert(full.subrange(0, "请使用简体中文回答"@.len() as int) =~= "请使用简体中文回答"@);
    } else {
        assert(full.subrange(0, "Please answer in English"@.len() as int)
            =~= "Please answer in English"@);
    }
}

/// The service is named by its options where the settings give them: the provider first,
/// the model after it, and the address last.
pub proof fn law_services_are_named_by_options(settings: Settings)
    ensures
        ({
            let args = service_args(settings);
            let provider = trimmed(settings.provider@);
            let model = trimmed(settings.model@);
            let base = base_of(settings.base_url@);
            let p = if provider.len() > 0 {
                2int
            } else {
                0
            };
            let m = if model.len() > 0 {
                2int
            } else {
                0
            };
            let b = if base.len() > 0 {
                2int
            } else {
                0
            };
            &&& args.len() == p + m + b
            &&& provider.len() > 0 ==> args[0] == "--provider"@ && args[1] == provider
            &&& model.len() > 0 ==> args[p] == "--model"@ && args[p + 1] == model
            &&& base.len() > 0 ==> args[p + m] == "--base-url"@ && args[p + m + 1] == base
        }),
{
}

/// Each action has its command. The prompt goes to the agent's and to no other; tools are
/// switched on where they are asked for, in the actions that can use them.
pub proof fn law_actions_have_their_commands(
    action: Seq<char>,
    workspace: Seq<char>,
    prompt: Seq<char>,
    mcp: bool,
)
    ensures
        ({
            let args = action_args(action, workspace, prompt, mcp);
            &&& action == "continue"@ ==> args.len() == 4 && args[0] == "run"@ && args[1]
                == "--workspace"@ && args[2] == workspace && args[3] == "--continue"@
            &&& action == "doctor"@ ==> args.len() == 1 && args[0] == "doctor"@
            &&& action == "setup"@ ==> args.len() == 1 && args[0] == "setup"@
            &&& is_agent_action(action) ==> {
                &&& args[0] == "exec"@
                &&& args[args.len() - 2] == "--auto"@
                &&& args[args.len() - 1] == prompt
                &&& mcp ==> args.len() == 5 && args[1] == "--enable"@ && args[2] == "mcp"@
                &&& !mcp ==> args.len() == 3
            }
            &&& action != "continue"@ && action != "doctor"@ && action != "setup"@
                && !is_agent_action(action) ==> {
                &&& args[0] == "run"@ && args[1] == "--workspace"@ && args[2] == workspace
                &&& mcp ==> args.len() == 5 && args[3] == "--enable"@ && args[4] == "mcp"@
                &&& !mcp ==> args.len() == 3
            }
        }),
{
    reveal_strlit("continue");
    reveal_strlit("doctor");
    reveal_strlit("setup");
    reveal_strlit("exec");
    reveal_strlit("plan");
    reveal_strlit("yolo");
    assert("continue"@.len() == 8 && "doctor"@.len() == 6 && "setup"@.len() == 5 && "exec"@.len()
        == 4 && "plan"@.len() == 4 && "yolo"@.len() == 4);
}

/// The arguments of the program are those of the service and then those of the action, with
/// tools as the settings say.
pub proof fn law_services_come_before_actions(
    settings: Settings,
    action: Seq<char>,
    workspace: Seq<char>,
    prompt: Seq<char>,
)
    ensures
        ({
            let args = terminal_args(settings, action, workspace, prompt);
            let n = service_args(settings).len() as int;
            &&& args.take(n) == service_args(settings)
            &&& settings.mcp_enabled ==> args.skip(n) == action_args(
                action,
                workspace,
                prompt,
                true,
            )
            &&& !settings.mcp_enabled ==> args.skip(n) == action_args(
                action,
                workspace,
                prompt,
                false,
            )
        }),
{
    let args = terminal_args(settings, action, workspace, prompt);
    let n = service_args(settings).len() as int;
    assert(args.take(n) =~= service_args(settings));
    assert(args.skip(n) =~= action_args(action, workspace, prompt, settings.mcp_enabled));
}

/// The browser is run for a picture or a video where its server is switched on; otherwise
/// the answer of the one service is streamed unless a tool is needed, and everything else
/// goes to the agent.
pub proof fn law_requests_take_their_way(
    settings: Settings,
    action: Seq<char>,
    text: Seq<char>,
    lower: Seq<char>,
)
    ensures
        ({
            let way = route(settings, action, text, lower);
            let media = wants_screenshot(text, lower) || wants_recording(text, lower);
            let browser = settings.mcp_enabled && views(settings.enabled_mcp_servers@).contains(
                "playwright"@,
            ) && media;
            let tool = settings.mcp_enabled && wants_tool(text, lower);
            let deepseek = trimmed(settings.provider@) == "deepseek"@;
            &&& !is_agent_action(action) ==> way == Route::Terminal
            &&& is_agent_action(action) && browser ==> way == Route::Browser
            &&& is_agent_action(action) && !browser && deepseek && !tool ==> way == Route::Stream
            &&& is_agent_action(action) && !browser && tool ==> way == Route::Agent(true)
            &&& is_agent_action(action) && !browser && !deepseek && !tool ==> way == Route::Agent(
                false,
            )
        }),
{
}

/// The user is told of the servers and the configuration that the tools are run with.
pub proof fn law_tools_are_told(servers: Seq<Seq<char>>, path: Seq<char>)
    ensures
        servers.len() > 0 ==> contains_text(
            mcp_notice(servers, Some(path)),
            "MCP servers: "@ + joined(servers, ","@) + "\r\n"@,
        ),
        servers.len() == 0 ==> contains_text(
            mcp_notice(servers, Some(path)),
            "MCP servers: "@ + "(custom config)"@ + "\r\n"@,
        ),
        ends(mcp_notice(servers, Some(path)), "MCP config: "@ + path + "\r\n"@),
        ends(mcp_notice(servers, None), "MCP config: "@ + "(none)"@ + "\r\n"@),
{
    reveal_strlit("\r\n");
    reveal_strlit("MCP servers: ");
    reveal_strlit("MCP config: ");
    reveal_strlit("\r\n[tool] MCP config: ");
    reveal_strlit("[tool] MCP 路由：该请求需要外部工具，已选择 deepseek CLI + MCP 执行。\r\n[tool] MCP servers: ");
    let head = "[tool] MCP 路由：该请求需要外部工具，已选择 deepseek CLI + MCP 执行。\r\n[tool] MCP servers: "@;
    let list = if servers.len() == 0 {
        "(custom config)"@
    } else {
        joined(servers, ","@)
    };
    let n = head.len() - "MCP servers: "@.len();
    let said = mcp_notice(servers, Some(path));
    let part = "MCP servers: "@ + list + "\r\n"@;
    assert(said.subrange(n, n + part.len()) =~= part);
    assert(matches_at(said, part, n));
    let tail = "MCP config: "@ + path + "\r\n"@;
    assert(said.subrange(said.len() - tail.len(), said.len() as int) =~= tail);
    let none = mcp_notice(servers, None);
    let end = "MCP config: "@ + "(none)"@ + "\r\n"@;
    assert(none.subrange(none.len() - end.len(), none.len() as int) =~= end);
}

/// The user is told of the model and the address that an answer is streamed from.
pub proof fn law_streams_are_told(model: Seq<char>, base_url: Seq<char>)
    ensures
        contains_text(stream_notice(model, base_url), "model="@ + model + ", url="@),
        ends(stream_notice(model, base_url), ", url="@ + chat_url(base_url) + "\r\n\r\n"@),
{
    reveal_strlit("DeepSeek stream started: model=");
    reveal_strlit("model=");
    let said = stream_notice(model, base_url);
    let part = "model="@ + model + ", url="@;
    let n = "DeepSeek stream started: model="@.len() - "model="@.len();
    assert(said.subrange(n, n + part.len()) =~= part);
    assert(matches_at(said, part, n));
    let tail = ", url="@ + chat_url(base_url) + "\r\n\r\n"@;
    assert(said.subrange(said.len() - tail.len(), said.len() as int) =~= tail);
}

/// The program gets each value under its own name where there is one, and under no other:
/// the key under the names of its provider, the service as the settings give it, the
/// configuration where there is one, and the skills where they are switched on.
#[verifier::rlimit(40)]
pub proof fn law_values_reach_the_program(
    settings: Settings,
    key: Seq<char>,
    config: Option<Seq<char>>,
    skills_dir: Seq<char>,
    v: Seq<char>,
)
    ensures
        ({
            let env = terminal_env(settings, key, config, skills_dir);
            let nvidia = trimmed(settings.provider@) == "nvidia-nim"@;
            &&& env.contains(("TERM"@, v)) == (v == "xterm-256color"@)
            &&& env.contains(("COLORTERM"@, v)) == (v == "truecolor"@)
            &&& env.contains(("NVIDIA_API_KEY"@, v)) == (nvidia && key.len() > 0 && v == key)
            &&& env.contains(("NVIDIA_NIM_API_KEY"@, v)) == (nvidia && key.len() > 0 && v == key)
            &&& env.contains(("DEEPSEEK_API_KEY"@, v)) == (!nvidia && key.len() > 0 && v == key)
            &&& env.contains(("DEEPSEEK_BASE_URL"@, v)) == (v.len() > 0 && v == base_of(
                settings.base_url@,
            ))
            &&& env.contains(("DEEPSEEK_MODEL"@, v)) == (v.len() > 0 && v == trimmed(
                settings.model@,
            ))
            &&& env.contains(("DEEPSEEK_PROVIDER"@, v)) == (v.len() > 0 && v == trimmed(
                settings.provider@,
            ))
            &&& env.contains(("DEEPSEEK_MCP_CONFIG"@, v)) == (config == Some(v))
            &&& env.contains(("DEEPSEEK_DESKTOP_ENABLED_MCP"@, v)) == (config is Some && v
                == joined(views(settings.enabled_mcp_servers@), ","@))
            &&& env.contains(("DEEPSEEK_SKILLS_DIR"@, v)) == (settings.skills_enabled && v
                == skills_dir)
            &&& env.contains(("DEEPSEEK_DESKTOP_ENABLED_SKILLS"@, v)) == (settings.skills_enabled
                && v == joined(views(settings.enabled_skills@), ","@))
        }),
{
    lemma_names_differ();
    lemma_entries(settings, key, config, skills_dir, ("TERM"@, v));
    lemma_entries(settings, key, config, skills_dir, ("COLORTERM"@, v));
    lemma_entries(settings, key, config, skills_dir, ("NVIDIA_API_KEY"@, v));
    lemma_entries(settings, key, config, skills_dir, ("NVIDIA_NIM_API_KEY"@, v));
    lemma_entries(settings, key, config, skills_dir, ("DEEPSEEK_API_KEY"@, v));
    lemma_entries(settings, key, config, skills_dir, ("DEEPSEEK_BASE_URL"@, v));
    lemma_entries(settings, key, config, skills_dir, ("DEEPSEEK_MODEL"@, v));
    lemma_entries(settings, key, config, skills_dir, ("DEEPSEEK_PROVIDER"@, v));
    lemma_entries(settings, key, config, skills_dir, ("DEEPSEEK_MCP_CONFIG"@, v));
    lemma_entries(settings, key, config, skills_dir, ("DEEPSEEK_DESKTOP_ENABLED_MCP"@, v));
    lemma_entries(settings, key, config, skills_dir, ("DEEPSEEK_SKILLS_DIR"@, v));
    lemma_entries(settings, key, config, skills_dir, ("DEEPSEEK_DESKTOP_ENABLED_SKILLS"@, v));
}

/// What a value has to be to reach the program under its name.
spec fn entry_of(
    settings: Settings,
    key: Seq<char>,
    config: Option<Seq<char>>,
    skills_dir: Seq<char>,
    e: (Seq<char>, Seq<char>),
) -> bool {
    let nvidia = trimmed(settings.provider@) == "nvidia-nim"@;
    ||| e == ("TERM"@, "xterm-256color"@)
    ||| e == ("COLORTERM"@, "truecolor"@)
    ||| nvidia && key.len() > 0 && e == ("NVIDIA_API_KEY"@, key)
    ||| nvidia && key.len() > 0 && e == ("NVIDIA_NIM_API_KEY"@, key)
    ||| !nvidia && key.len() > 0 && e == ("DEEPSEEK_API_KEY"@, key)
    ||| e.1.len() > 0 && e == ("DEEPSEEK_BASE_URL"@, base_of(settings.base_url@))
    ||| e.1.len() > 0 && e == ("DEEPSEEK_MODEL"@, trimmed(settings.model@))
    ||| e.1.len() > 0 && e == ("DEEPSEEK_PROVIDER"@, trimmed(settings.provider@))
    ||| config matches Some(path) && e == ("DEEPSEEK_MCP_CONFIG"@, path)
    ||| config is Some && e == (
        "DEEPSEEK_DESKTOP_ENABLED_MCP"@,
        joined(views(settings.enabled_mcp_servers@), ","@),
    )
    ||| settings.skills_enabled && e == ("DEEPSEEK_SKILLS_DIR"@, skills_dir)
    ||| settings.skills_enabled && e == (
        "DEEPSEEK_DESKTOP_ENABLED_SKILLS"@,
        joined(views(settings.enabled_skills@), ","@),
    )
}

/// An entry is there exactly where it is one of these.
proof fn lemma_entries(
    settings: Settings,
    key: Seq<char>,
    config: Option<Seq<char>>,
    skills_dir: Seq<char>,
    e: (Seq<char>, Seq<char>),
)
    ensures
        terminal_env(settings, key, config, skills_dir).contains(e) == entry_of(
            settings,
            key,
            config,
            skills_dir,
            e,
        ),
{
    let provider = trimmed(settings.provider@);
    let base = base_of(settings.base_url@);
    let model = trimmed(settings.model@);
    let first = seq![("TERM"@, "xterm-256color"@), ("COLORTERM"@, "truecolor"@)];
    lemma_two_held(first, e);
    lemma_env_if_held("NVIDIA_API_KEY"@, key, e);
    lemma_env_if_held("NVIDIA_NIM_API_KEY"@, key, e);
    lemma_env_if_held("DEEPSEEK_API_KEY"@, key, e);
    lemma_both_held(env_if("NVIDIA_API_KEY"@, key), env_if("NVIDIA_NIM_API_KEY"@, key), e);
    let e1 = first + key_env(provider, key);
    lemma_both_held(first, key_env(provider, key), e);
    let e2 = e1 + env_if("DEEPSEEK_BASE_URL"@, base);
    lemma_both_held(e1, env_if("DEEPSEEK_BASE_URL"@, base), e);
    lemma_env_if_held("DEEPSEEK_BASE_URL"@, base, e);
    let e3 = e2 + env_if("DEEPSEEK_MODEL"@, model);
    lemma_both_held(e2, env_if("DEEPSEEK_MODEL"@, model), e);
    lemma_env_if_held("DEEPSEEK_MODEL"@, model, e);
    let e4 = e3 + env_if("DEEPSEEK_PROVIDER"@, provider);
    lemma_both_held(e3, env_if("DEEPSEEK_PROVIDER"@, provider), e);
    lemma_env_if_held("DEEPSEEK_PROVIDER"@, provider, e);
    let servers = joined(views(settings.enabled_mcp_servers@), ","@);
    let tools = match config {
        Some(path) => seq![
            ("DEEPSEEK_MCP_CONFIG"@, path),
            ("DEEPSEEK_DESKTOP_ENABLED_MCP"@, servers),
        ],
        None => seq![],
    };
    if config is Some {
        lemma_two_held(tools, e);
    }
    let e5 = e4 + tools;
    lemma_both_held(e4, tools, e);
    let chosen = joined(views(settings.enabled_skills@), ","@);
    let skills = if settings.skills_enabled {
        seq![
            ("DEEPSEEK_SKILLS_DIR"@, skills_dir),
            ("DEEPSEEK_DESKTOP_ENABLED_SKILLS"@, chosen),
        ]
    } else {
        seq![]
    };
    if settings.skills_enabled {
        lemma_two_held(skills, e);
    }
    lemma_both_held(e5, skills, e);
    assert(terminal_env(settings, key, config, skills_dir) == e5 + skills);
}

/// The names of the values are all different.
proof fn lemma_names_differ()
    ensures
        "TERM"@.len() == 4,
        "COLORTERM"@.len() == 9,
        "NVIDIA_API_KEY"@.len() == 14,
        "NVIDIA_NIM_API_KEY"@.len() == 18,
        "DEEPSEEK_API_KEY"@.len() == 16,
        "DEEPSEEK_BASE_URL"@.len() == 17,
        "DEEPSEEK_MODEL"@.len() == 14,
        "DEEPSEEK_PROVIDER"@.len() == 17,
        "DEEPSEEK_MCP_CONFIG"@.len() == 19,
        "DEEPSEEK_DESKTOP_ENABLED_MCP"@.len() == 28,
        "DEEPSEEK_SKILLS_DIR"@.len() == 19,
        "DEEPSEEK_DESKTOP_ENABLED_SKILLS"@.len() == 31,
        "NVIDIA_API_KEY"@ != "DEEPSEEK_MODEL"@,
        "DEEPSEEK_BASE_URL"@ != "DEEPSEEK_PROVIDER"@,
        "DEEPSEEK_MCP_CONFIG"@ != "DEEPSEEK_SKILLS_DIR"@,
{
    reveal_strlit("TERM");
    reveal_strlit("COLORTERM");
    reveal_strlit("NVIDIA_API_KEY");
    reveal_strlit("NVIDIA_NIM_API_KEY");
    reveal_strlit("DEEPSEEK_API_KEY");
    reveal_strlit("DEEPSEEK_BASE_URL");
    reveal_strlit("DEEPSEEK_MODEL");
    reveal_strlit("DEEPSEEK_PROVIDER");
    reveal_strlit("DEEPSEEK_MCP_CONFIG");
    reveal_strlit("DEEPSEEK_DESKTOP_ENABLED_MCP");
    reveal_strlit("DEEPSEEK_SKILLS_DIR");
    reveal_strlit("DEEPSEEK_DESKTOP_ENABLED_SKILLS");
    assert("NVIDIA_API_KEY"@[0] == 'N' && "DEEPSEEK_MODEL"@[0] == 'D');
    assert("DEEPSEEK_BASE_URL"@[9] == 'B' && "DEEPSEEK_PROVIDER"@[9] == 'P');
    assert("DEEPSEEK_MCP_CONFIG"@[9] == 'M' && "DEEPSEEK_SKILLS_DIR"@[9] == 'S');
}

proof fn lemma_env_if_held(name: Seq<char>, value: Seq<char>, e: (Seq<char>, Seq<char>))
    ensures
        env_if(name, value).contains(e) == (value.len() > 0 && e == (name, value)),
{
    if value.len() > 0 {
        assert(env_if(name, value)[0] == (name, value));
    }
}

proof fn lemma_two_held(list: Seq<(Seq<char>, Seq<char>)>, e: (Seq<char>, Seq<char>))
    requires
        list.len() == 2,
    ensures
        list.contains(e) == (e == list[0] || e == list[1]),
{
}

proof fn lemma_both_held(
    a: Seq<(Seq<char>, Seq<char>)>,
    b: Seq<(Seq<char>, Seq<char>)>,
    e: (Seq<char>, Seq<char>),
)
    ensures
        (a + b).contains(e) == (a.contains(e) || b.contains(e)),
{
    if a.contains(e) {
        let i = choose|i: int| 0 <= i < a.len() && a[i] == e;
        assert((a + b)[i] == e);
    }
    if b.contains(e) {
        let i = choose|i: int| 0 <= i < b.len() && b[i] == e;
        assert((a + b)[a.len() + i] == e);
    }
}

/// A session is named by its time, and different times make different names.
pub proof fn law_sessions_are_named_by_their_time(a: nat, b: nat)
    ensures
        starts(session_name(a as int), "session_"@),
        session_name(a as int) == session_name(b as int) ==> a == b,
{
    let n = "session_"@.len() as int;
    let x = session_name(a as int);
    let y = session_name(b as int);
    assert(x.subrange(0, n) =~= "session_"@);
    assert(x.skip(n) =~= decimal(a as int));
    assert(y.skip(n) =~= decimal(b as int));
    let top = if a > b {
        a
    } else {
        b
    };
    law_decimal_reads_back(a, top);
    law_decimal_reads_back(b, top);
}

/// The program for commands runs only in place of the one with a user interface of its own;
/// any other program runs itself.
pub proof fn law_programs_run_themselves(binary: Seq<char>, name: Seq<char>, path: Seq<char>)
    ensures
        is_tui(name) ==> run_binary(binary, Some(name), Some(path)) == path,
        !is_tui(name) ==> run_binary(binary, Some(name), Some(path)) == binary,
        run_binary(binary, Some(name), None) == binary,
        run_binary(binary, None, Some(path)) == binary,
{
}

/// A program that ended well is reported as such, and no other is: an exit code of zero is
/// zero, and a missing one is not.
pub proof fn law_only_success_is_reported_as_zero(a: u32, b: u32)
    ensures
        exit_number(Some(a)) == 0 <==> a == 0,
        exit_number(None) == -1,
        a < 0x8000_0000 ==> exit_number(Some(a)) == a,
        a >= 0x8000_0000 ==> exit_number(Some(a)) < 0,
        exit_number(Some(a)) == exit_number(Some(b)) ==> a == b,
{
}

} // verus!
