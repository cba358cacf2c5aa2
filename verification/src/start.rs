//! The whole plan for a terminal, made before anything runs.

use vstd::prelude::*;
use crate::chat::{base_of, normalize_base_url};
use crate::redact::{redact_args, redacted_args};
use crate::request::user_request;
use crate::settings::{Settings, TerminalOptions};
use crate::terminal::{
    agent_prompt, choose_route, env_views, full_prompt, make_terminal_args, make_terminal_env,
    mcp_notice, route, stream_notice, tell_mcp, tell_stream, terminal_args, terminal_env, Route,
};
use crate::text::{lowered, trim_str, trimmed, views};

verus! {

/// What is known when a terminal is to start: the path of the workspace, the key of the
/// service, the path of the configuration of the tool servers if there is one, the
/// directory with the skills, what the skills and the memory add to a prompt.
pub struct StartContext {
    pub workspace: String,
    pub api_key: String,
    pub mcp_config: Option<String>,
    pub skills_dir: String,
    pub skill_prefix: String,
    pub memory: String,
}

impl StartContext {
    /// The path of the configuration of the tool servers.
    pub open spec fn config(self) -> Option<Seq<char>> {
        match self.mcp_config {
            Some(path) => Some(path@),
            None => None,
        }
    }
}

/// How a terminal starts.
pub struct TerminalPlan {
    pub route: Route,
    pub args: Vec<String>,
    /// The arguments as they may be logged.
    pub logged_args: Vec<String>,
    pub env: Vec<(String, String)>,
    pub base_url: String,
    pub model: String,
    /// The prompt that the agent gets.
    pub prompt: String,
    /// What the user is told first.
    pub notice: Option<String>,
    /// What the user is told when a streamed answer begins, where the settings ask for
    /// that.
    pub banner: Option<String>,
}

/// The prompt that the agent gets.
pub open spec fn start_prompt(
    settings: Settings,
    options: TerminalOptions,
    context: StartContext,
) -> Seq<char> {
    full_prompt(
        settings.language@,
        options.launch_action@,
        context.skill_prefix@,
        context.memory@,
        options.agent_prompt@,
    )
}

/// The plan is the one for these settings, options and context.
pub open spec fn is_start_plan(
    plan: TerminalPlan,
    settings: Settings,
    options: TerminalOptions,
    context: StartContext,
) -> bool {
    let prompt = start_prompt(settings, options, context);
    let args = terminal_args(settings, options.launch_action@, context.workspace@, prompt);
    let asked = user_request(options.agent_prompt@);
    let way = route(settings, options.launch_action@, asked, lowered(asked));
    &&& plan.route == way
    &&& views(plan.args@) == args
    &&& views(plan.logged_args@) == redacted_args(args, false)
    &&& env_views(plan.env@) == terminal_env(
        settings,
        context.api_key@,
        context.config(),
        context.skills_dir@,
    )
    &&& plan.base_url@ == base_of(settings.base_url@)
    &&& plan.model@ == trimmed(settings.model@)
    &&& plan.prompt@ == prompt
    &&& plan.notice is Some == (way == Route::Agent(true))
    &&& plan.notice matches Some(text) ==> text@ == mcp_notice(
        views(settings.enabled_mcp_servers@),
        context.config(),
    )
    &&& plan.banner is Some == (way == Route::Stream && settings.harness_enabled)
    &&& plan.banner matches Some(text) ==> text@ == stream_notice(
        trimmed(settings.model@),
        base_of(settings.base_url@),
    )
}

/// Plans a terminal.
pub fn terminal_start(settings: &Settings, options: &TerminalOptions, context: &StartContext) -> (r:
    TerminalPlan)
    ensures
        is_start_plan(r, *settings, *options, *context),
{
    let config = match &context.mcp_config {
        Some(path) => Some(path.as_str()),
        None => None,
    };
    let prompt = agent_prompt(
        settings.language.as_str(),
        options.launch_action.as_str(),
        context.skill_prefix.as_str(),
        context.memory.as_str(),
        options.agent_prompt.as_str(),
    );
    let args = make_terminal_args(
        settings,
        options.launch_action.as_str(),
        context.workspace.as_str(),
        prompt.as_str(),
    );
    let way = choose_route(settings, options);
    let notice = match way {
        Route::Agent(true) => Some(tell_mcp(settings, config)),
        _ => None,
    };
    let base_url = normalize_base_url(settings.base_url.as_str());
    let model = trim_str(settings.model.as_str());
    let banner = match way {
        Route::Stream if settings.harness_enabled => Some(
            tell_stream(model.as_str(), base_url.as_str()),
        ),
        _ => None,
    };
    TerminalPlan {
        route: way,
        logged_args: redact_args(&args),
        args,
        env: make_terminal_env(
            settings,
            context.api_key.as_str(),
            config,
            context.skills_dir.as_str(),
        ),
        base_url,
        model,
        prompt,
        notice,
        banner,
    }
}

/// What the user is told last: the answer of the browser, set apart, or of a streamed
/// answer what went wrong.
pub open spec fn closing(way: Route, output: Seq<char>, exit_code: int) -> Option<Seq<char>> {
    match way {
        Route::Browser => Some("\r\n"@ + output + "\r\n"@),
        Route::Stream => if exit_code != 0 {
            Some(output)
        } else {
            None
        },
        _ => None,
    }
}

/// What the user is told last.
pub fn tell_closing(way: Route, output: &str, exit_code: i32) -> (r: Option<String>)
    ensures
        match r {
            Some(text) => closing(way, output@, exit_code as int) == Some(text@),
            None => closing(way, output@, exit_code as int) is None,
        },
{
    match way {
        Route::Browser => {
            let mut out = "\r\n".to_string();
            out.append(output);
            out.append("\r\n");
            Some(out)
        },
        Route::Stream => if exit_code != 0 {
            Some(output.to_string())
        } else {
            None
        },
        _ => None,
    }
}

/// The key of the service is no part of the arguments: plans for contexts that differ in
/// the key alone have the same arguments, also as they are logged.
pub proof fn law_keys_stay_out_of_arguments(
    settings: Settings,
    options: TerminalOptions,
    context: StartContext,
    other: StartContext,
    plan: TerminalPlan,
    other_plan: TerminalPlan,
)
    requires
        other == (StartContext { api_key: other.api_key, ..context }),
        is_start_plan(plan, settings, options, context),
        is_start_plan(other_plan, settings, options, other),
    ensures
        views(plan.args@) == views(other_plan.args@),
        views(plan.logged_args@) == views(other_plan.logged_args@),
        plan.route == other_plan.route,
        plan.prompt@ == other_plan.prompt@,
{
}

/// A start goes by the settings, the options and what the program knows: what the user asks
/// for decides on the way, the agent gets the whole prompt, and a notice or a banner is
/// given exactly on the way that it is about.
pub proof fn law_starts_go_by_the_settings(
    plan: TerminalPlan,
    settings: Settings,
    options: TerminalOptions,
    context: StartContext,
)
    requires
        is_start_plan(plan, settings, options, context),
    ensures
        ({
            let asked = user_request(options.agent_prompt@);
            plan.route == route(settings, options.launch_action@, asked, lowered(asked))
        }),
        plan.prompt@ == full_prompt(
            settings.language@,
            options.launch_action@,
            context.skill_prefix@,
            context.memory@,
            options.agent_prompt@,
        ),
        plan.model@ == trimmed(settings.model@),
        plan.base_url@ == base_of(settings.base_url@),
        views(plan.args@) == terminal_args(
            settings,
            options.launch_action@,
            context.workspace@,
            plan.prompt@,
        ),
        views(plan.logged_args@) == redacted_args(views(plan.args@), false),
        plan.notice is Some ==> plan.route is Agent,
        plan.route == Route::Agent(true) ==> plan.notice is Some,
        plan.route == Route::Agent(false) ==> plan.notice is None,
        plan.banner is Some ==> plan.route is Stream && settings.harness_enabled,
        plan.route is Stream && settings.harness_enabled ==> plan.banner is Some,
        context.mcp_config matches Some(path) ==> env_views(plan.env@) == terminal_env(
            settings,
            context.api_key@,
            Some(path@),
            context.skills_dir@,
        ),
        context.mcp_config is None ==> env_views(plan.env@) == terminal_env(
            settings,
            context.api_key@,
            None,
            context.skills_dir@,
        ),
{
}

/// At the end the answer of the browser is shown on lines of its own, that of a stream only
/// where it failed, and nothing more on the other ways.
pub proof fn law_answers_are_shown_once(output: Seq<char>, exit_code: int, tool: bool)
    ensures
        closing(Route::Browser, output, exit_code) == Some("\r\n"@ + output + "\r\n"@),
        exit_code == 0 ==> closing(Route::Stream, output, exit_code) is None,
        exit_code != 0 ==> closing(Route::Stream, output, exit_code) == Some(output),
        closing(Route::Agent(tool), output, exit_code) is None,
        closing(Route::Terminal, output, exit_code) is None,
{
}

} // verus!
