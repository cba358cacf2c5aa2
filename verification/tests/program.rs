use std::path::PathBuf;

use ds_code::memory::{
    append_entry, append_memory, append_memory_entry, append_report, choose_memory_dir, get_memory,
    get_memory_dir, load_memory, memory_file, memory_file_path, memory_path, read_memory_injection, save_memory,
    save_memory_answer, user_path, MemoryFile,
};
use ds_code::paths::{
    choose_data_dir, choose_task_dir, choose_tool_dir, choose_workspace_dir,
    configured_screenshot_dir, get_automations_path, get_log_dir, get_secrets_path,
    get_settings_path, get_skills_dir, get_task_log, get_user_data_dir, resolve_task_dir,
    resolve_workspace_dir, FilePath, PathBase,
};
use ds_code::runtime::{
    answer_editor, bundled_above, bundled_beside_sources, check_runtime, editor_commands,
    editor_outcome, get_bundled_binary_path, get_runtime_snapshot, open_workspace_editor, EditorOutcome,
};
use ds_code::secrets::{get_api_key, save_api_key, KeyStore};
use ds_code::settings::{Settings, TerminalOptions};
use ds_code::start::{tell_closing, terminal_start, StartContext};
use ds_code::terminal::{
    agent_prompt, choose_binary, choose_route, command_binary, language_instruction,
    make_terminal_args, make_terminal_env, name_session, new_session, reported_exit, started, tell_mcp,
    tell_stream, terminal_result, terminal_size, ResultTable, Route,
};

fn shown(path: FilePath) -> String {
    let mut out = match path.base {
        PathBase::Given(p) => p.to_string_lossy().to_string(),
        PathBase::Text(t) => format!("text:{}", t),
    };
    for part in path.parts {
        out.push('|');
        out.push_str(&part);
    }
    out
}

fn some(path: &str) -> Option<PathBuf> {
    Some(PathBuf::from(path))
}

#[test]
fn the_data_directory_can_be_configured() {
    assert_eq!(shown(choose_data_dir(some("/d"), some("/s"))), "/d");
    assert_eq!(shown(choose_data_dir(None, some("/s"))), "/s|ds-code");
    assert_eq!(shown(choose_data_dir(None, None)), "text:.|ds-code");
    let system = match dirs::data_dir() {
        Some(p) => format!("{}|ds-code", p.to_string_lossy()),
        None => "text:.|ds-code".to_string(),
    };
    assert_eq!(shown(get_user_data_dir(None)), system);
    assert_eq!(shown(get_user_data_dir(some("/d"))), "/d");
}

#[test]
fn files_lie_in_the_data_directory() {
    let dir = || get_user_data_dir(some("/d"));
    assert_eq!(shown(get_settings_path(dir())), "/d|settings.json");
    assert_eq!(shown(get_secrets_path(dir())), "/d|secrets.json");
    assert_eq!(shown(get_skills_dir(dir())), "/d|skills");
    assert_eq!(shown(get_log_dir(dir())), "/d|logs");
    assert_eq!(shown(get_automations_path(dir())), "/d|automations.json");
    assert_eq!(shown(get_task_log(dir(), "x")), "/d|logs|task_x.log");
}

#[test]
fn the_first_variable_decides_on_pictures() {
    assert_eq!(configured_screenshot_dir(None, None), None);
    assert_eq!(configured_screenshot_dir(some("/a"), some("/b")), some("/a"));
    assert_eq!(configured_screenshot_dir(None, some("/b")), some("/b"));
    assert_eq!(configured_screenshot_dir(some(""), some("/b")), None);
}

#[test]
fn workspaces_are_resolved() {
    assert_eq!(shown(choose_workspace_dir(" /w ", true, some("/h"), None)), "text:/w");
    assert_eq!(shown(choose_workspace_dir("/w", false, some("/h"), some("/c"))), "/h");
    assert_eq!(shown(choose_workspace_dir("", true, None, some("/c"))), "/c");
    assert_eq!(shown(choose_workspace_dir("", false, None, None)), "text:.");
    let home = match dirs::home_dir() {
        Some(p) => p.to_string_lossy().to_string(),
        None => "/c".to_string(),
    };
    assert_eq!(shown(resolve_workspace_dir("", false, some("/c"))), home);
    let given = || FilePath::given(PathBuf::from("/w"));
    assert_eq!(shown(choose_tool_dir(" ", given(), some("/c"))), "/c");
    assert_eq!(shown(choose_tool_dir(" ", given(), None)), "/w");
    assert_eq!(shown(choose_tool_dir("x", given(), some("/c"))), "/w");
}

#[test]
fn tasks_run_in_a_directory() {
    assert_eq!(shown(choose_task_dir(" /w", some("/k"), some("/h"))), "text: /w");
    assert_eq!(shown(choose_task_dir(" ", some("/k"), some("/h"))), "/k");
    assert_eq!(shown(choose_task_dir("", None, some("/h"))), "/h");
    assert_eq!(shown(choose_task_dir("", None, None)), "text:.");
    assert_eq!(shown(resolve_task_dir("/w")), "text:/w");
}

#[test]
fn memory_lies_in_its_directory() {
    for windows in [true, false] {
        assert_eq!(shown(get_memory_dir(some("/d"), windows)), "/d|memory");
    }
    let chosen = |windows, home, system| shown(choose_memory_dir(None, windows, home, system));
    assert_eq!(chosen(false, some("/h"), some("/s")), "/h|.ds-code|memory");
    assert_eq!(chosen(false, None, some("/s")), "text:.|.ds-code|memory");
    assert_eq!(chosen(true, some("/h"), some("/s")), "/s|ds-code|memory");
    assert_eq!(chosen(true, some("/h"), None), "text:.|ds-code|memory");
    assert_eq!(
        shown(get_memory_dir(None, false)),
        chosen(false, dirs::home_dir(), dirs::data_dir())
    );
    assert_eq!(
        shown(get_memory_dir(None, true)),
        chosen(true, dirs::home_dir(), dirs::data_dir())
    );
}

#[test]
fn memory_files_lie_together() {
    let dir = || get_memory_dir(some("/d"), false);
    assert_eq!(shown(memory_path(dir())), "/d|memory|MEMORY.md");
    assert_eq!(shown(user_path(dir())), "/d|memory|USER.md");
    assert_eq!(shown(memory_file_path(MemoryFile::Notes, dir())), "/d|memory|MEMORY.md");
    assert_eq!(shown(memory_file_path(MemoryFile::User, dir())), "/d|memory|USER.md");
}

#[test]
fn entries_are_put_behind_the_notes() {
    assert_eq!(append_entry("", "T", " e \n"), "### T\ne\n");
    assert_eq!(append_entry("old", "T", "e"), "old\n### T\ne\n");
    let notes = append_memory(Ok("old".to_string()), "e");
    let stamp = notes
        .strip_prefix("old\n### ")
        .and_then(|s| s.strip_suffix("\ne\n"))
        .unwrap();
    assert!(chrono::NaiveDateTime::parse_from_str(stamp, "%Y-%m-%d %H:%M").is_ok());
    assert_eq!(stamp.len(), 16);
    assert!(append_memory(Err("gone".to_string()), "e").starts_with("### "));
}

#[test]
fn memory_reaches_the_prompt() {
    let read = |s: &str| Ok(s.to_string());
    assert_eq!(read_memory_injection(read(" \n"), Err("x".to_string())), "");
    assert_eq!(
        read_memory_injection(read(" a\n"), read("b")),
        "\n## 持久记忆\na\n\n### 用户偏好\nb\n\n请根据以上记忆和用户偏好调整你的回答和行为。\n"
    );
    assert_eq!(
        read_memory_injection(read(""), read("b")),
        "\n## 持久记忆\n\n### 用户偏好\nb\n\n请根据以上记忆和用户偏好调整你的回答和行为。\n"
    );
    assert_eq!(
        read_memory_injection(read("a"), read("")),
        "\n## 持久记忆\na\n\n请根据以上记忆和用户偏好调整你的回答和行为。\n"
    );
}

#[test]
fn commands_on_the_memory_are_answered() {
    assert_eq!(memory_file("memory").ok(), Some(MemoryFile::Notes));
    assert_eq!(memory_file("user").ok(), Some(MemoryFile::User));
    let answer = memory_file("other").err().unwrap();
    assert!(!answer.ok);
    assert_eq!(answer.content, "Invalid file_type. Use 'memory' or 'user'.");
    assert_eq!(load_memory(Err("x".to_string())), "");
    assert_eq!(get_memory(Ok("m".to_string())).content, "m");
    assert_eq!(save_memory(Ok(())), Ok(()));
    assert_eq!(
        save_memory(Err("full".to_string())),
        Err("Failed to save memory: full".to_string())
    );
    assert_eq!(
        append_report(Err("full".to_string())),
        Err("Failed to append memory: full".to_string())
    );
    let answer = save_memory_answer(Ok(()));
    assert_eq!((answer.ok, answer.content.as_str()), (true, "Saved."));
    let answer = save_memory_answer(Err("full".to_string()));
    assert_eq!((answer.ok, answer.content.as_str()), (false, "Failed to save memory: full"));
    let answer = append_memory_entry(Ok(()));
    assert_eq!((answer.ok, answer.content.as_str()), (true, "Appended."));
    assert!(!append_memory_entry(Err("x".to_string())).ok);
}

#[test]
fn saved_keys_are_found() {
    let mut store = KeyStore::empty();
    assert_eq!(store.version, 1);
    let answer = save_api_key(&mut store, "a", "k1");
    assert!(answer.ok && answer.has_key && answer.error.is_empty());
    save_api_key(&mut store, "b", "k2");
    save_api_key(&mut store, "a", "k3");
    assert_eq!(get_api_key(Some(&store.api_keys), "a"), "k3");
    assert_eq!(get_api_key(Some(&store.api_keys), "b"), "k2");
    assert_eq!(get_api_key(Some(&store.api_keys), "c"), "");
    assert_eq!(get_api_key(None, "a"), "");
    assert_eq!(store.api_keys.len(), 2);
    let answer = save_api_key(&mut store, "a", "");
    assert!(answer.ok && !answer.has_key);
    assert_eq!(get_api_key(Some(&store.api_keys), "a"), "k3");
}

#[test]
fn fresh_settings_are_those_of_a_first_start() {
    let s = Settings::default();
    let home = dirs::home_dir().map(|p| p.to_string_lossy().to_string()).unwrap_or_default();
    assert_eq!(s.workspace_path, home);
    assert_eq!((s.language.as_str(), s.binary_mode.as_str()), ("zh", "bundled"));
    assert_eq!((s.provider.as_str(), s.model.as_str()), ("deepseek", "deepseek-v4-pro"));
    assert_eq!(s.base_url, "https://api.deepseek.com");
    assert_eq!((s.max_subagents, s.mobile_bridge_port), (10, 8765));
    assert_eq!(s.enabled_skills.len(), 4);
    assert!(s.skills_enabled && s.remember_workspace && !s.mcp_enabled);
}

fn settings() -> Settings {
    Settings::in_workspace("/w".to_string())
}

fn options(action: &str, prompt: &str) -> TerminalOptions {
    TerminalOptions {
        cols: 80,
        rows: 24,
        workspace_path: "/w".to_string(),
        launch_action: action.to_string(),
        agent_prompt: prompt.to_string(),
    }
}

#[test]
fn programs_are_chosen() {
    let mut s = settings();
    assert_eq!(choose_binary(&s, "/b"), "/b");
    s.binary_mode = "system".to_string();
    assert_eq!(choose_binary(&s, "/b"), "deepseek");
    s.binary_mode = "custom".to_string();
    assert_eq!(choose_binary(&s, "/b"), "/b");
    s.custom_binary_path = "/own".to_string();
    assert_eq!(choose_binary(&s, "/b"), "/own");
    assert_eq!(command_binary("/x/DeepSeek-TUI.exe", Some("DeepSeek-TUI.exe"), Some("/x/d")), "/x/d");
    assert_eq!(command_binary("/x/t", Some("deepseek-tui.exe"), None), "/x/t");
    assert_eq!(command_binary("/x/t", Some("t"), Some("/x/d")), "/x/t");
    assert_eq!(command_binary("..", None, Some("/x/d")), "..");
}

#[test]
fn bundled_programs_are_looked_for_in_order() {
    assert_eq!(
        shown(bundled_beside_sources(PathBuf::from("/r"))),
        "/r|node_modules|deepseek-tui|bin|downloads|deepseek.exe"
    );
    assert_eq!(
        shown(bundled_above(PathBuf::from("/r"), false)),
        "/r|node_modules|deepseek-tui|bin|downloads|deepseek"
    );
    assert_eq!(get_bundled_binary_path(&vec![None, Some("/b".to_string()), Some("/c".to_string())]), "/b");
    assert_eq!(get_bundled_binary_path(&vec![None]), "deepseek");
}

#[test]
fn prompts_reach_the_agent() {
    assert_eq!(language_instruction("zh"), "请使用简体中文回答，除非用户明确要求其他语言。");
    assert_eq!(
        agent_prompt("en", "exec", "S", "M", "P"),
        "Please answer in English unless the user explicitly asks for another language.\n\nSMP"
    );
    assert_eq!(
        agent_prompt("zh", "plan", "", "", "P"),
        "请使用简体中文回答，除非用户明确要求其他语言。\n请只输出实施计划和风险点，不要修改文件或执行破坏性操作。\n\nP"
    );
    assert!(agent_prompt("zh", "yolo", "", "", "P").contains("\n在当前 workspace 中完成用户请求。"));
    for action in ["exec", "plan", "yolo"] {
        let prompt = agent_prompt("zh", action, "S", "M", "P");
        let args = make_terminal_args(&settings(), action, "/w", &prompt);
        assert_eq!(args.last(), Some(&prompt));
        assert!(prompt.ends_with("SMP"));
    }
}

#[test]
fn arguments_follow_the_action() {
    let mut s = settings();
    s.base_url = " https://x/v1/ ".to_string();
    let service = "--provider deepseek --model deepseek-v4-pro --base-url https://x ";
    let line = |s: &Settings, action: &str| make_terminal_args(s, action, "/w", "P").join(" ");
    assert_eq!(line(&s, "continue"), format!("{}run --workspace /w --continue", service));
    assert_eq!(line(&s, "doctor"), format!("{}doctor", service));
    assert_eq!(line(&s, "setup"), format!("{}setup", service));
    assert_eq!(line(&s, "exec"), format!("{}exec --auto P", service));
    assert_eq!(line(&s, "tui"), format!("{}run --workspace /w", service));
    s.mcp_enabled = true;
    assert_eq!(line(&s, "yolo"), format!("{}exec --enable mcp --auto P", service));
    assert_eq!(line(&s, ""), format!("{}run --workspace /w --enable mcp", service));
    s.provider = " ".to_string();
    s.model = String::new();
    s.base_url = "/".to_string();
    assert_eq!(line(&s, "doctor"), "doctor");
}

#[test]
fn requests_take_their_way() {
    let mut s = settings();
    assert_eq!(choose_route(&s, &options("tui", "截图 百度")), Route::Terminal);
    assert_eq!(choose_route(&s, &options("exec", "截图 百度")), Route::Stream);
    s.provider = "other".to_string();
    assert_eq!(choose_route(&s, &options("exec", "hi")), Route::Agent(false));
    s.mcp_enabled = true;
    assert_eq!(choose_route(&s, &options("exec", "读取文件")), Route::Agent(true));
    assert_eq!(choose_route(&s, &options("plan", "截图 百度")), Route::Agent(true));
    s.enabled_mcp_servers = vec!["playwright".to_string()];
    assert_eq!(choose_route(&s, &options("plan", "截图 百度")), Route::Browser);
    s.provider = " deepseek ".to_string();
    assert_eq!(choose_route(&s, &options("yolo", "hi")), Route::Stream);
    assert_eq!(choose_route(&s, &options("yolo", "文件")), Route::Agent(true));
}

#[test]
fn environments_name_service_and_tools() {
    let mut s = settings();
    s.enabled_mcp_servers = vec!["a".to_string(), "b".to_string()];
    let env = make_terminal_env(&s, "k", Some("/c"), "/skills");
    let pairs: Vec<(&str, &str)> = env.iter().map(|(n, v)| (n.as_str(), v.as_str())).collect();
    assert_eq!(
        pairs,
        vec![
            ("TERM", "xterm-256color"),
            ("COLORTERM", "truecolor"),
            ("DEEPSEEK_API_KEY", "k"),
            ("DEEPSEEK_BASE_URL", "https://api.deepseek.com"),
            ("DEEPSEEK_MODEL", "deepseek-v4-pro"),
            ("DEEPSEEK_PROVIDER", "deepseek"),
            ("DEEPSEEK_MCP_CONFIG", "/c"),
            ("DEEPSEEK_DESKTOP_ENABLED_MCP", "a,b"),
            ("DEEPSEEK_SKILLS_DIR", "/skills"),
            (
                "DEEPSEEK_DESKTOP_ENABLED_SKILLS",
                "superpowers,ui-ux-design,cron-scheduler,skill-downloader"
            ),
        ]
    );
    s.provider = "nvidia-nim".to_string();
    s.skills_enabled = false;
    let env = make_terminal_env(&s, "k", None, "/skills");
    let names: Vec<&str> = env.iter().map(|e| e.0.as_str()).collect();
    assert!(names.contains(&"NVIDIA_API_KEY") && names.contains(&"NVIDIA_NIM_API_KEY"));
    assert!(!names.contains(&"DEEPSEEK_API_KEY") && !names.contains(&"DEEPSEEK_SKILLS_DIR"));
    assert!(make_terminal_env(&s, "", None, "").iter().all(|e| !e.0.contains("KEY")));
}

#[test]
fn notices_name_servers_and_models() {
    let mut s = settings();
    assert_eq!(
        tell_mcp(&s, None),
        "[tool] MCP 路由：该请求需要外部工具，已选择 deepseek CLI + MCP 执行。\r\n[tool] MCP servers: (custom config)\r\n[tool] MCP config: (none)\r\n"
    );
    s.enabled_mcp_servers = vec!["a".to_string(), "b".to_string()];
    assert!(tell_mcp(&s, Some("/c")).contains("servers: a,b\r\n[tool] MCP config: /c\r\n"));
    assert_eq!(
        tell_stream("m", "https://x/v1"),
        "DeepSeek stream started: model=m, url=https://x/chat/completions\r\n\r\n"
    );
}

fn context(key: &str) -> StartContext {
    StartContext {
        workspace: "/w".to_string(),
        api_key: key.to_string(),
        mcp_config: Some("/c".to_string()),
        skills_dir: "/skills".to_string(),
        skill_prefix: "S".to_string(),
        memory: "M".to_string(),
    }
}

#[test]
fn terminals_are_planned_whole() {
    let mut s = settings();
    s.mcp_enabled = true;
    let plan = terminal_start(&s, &options("exec", "读取文件 password: x"), &context("k"));
    assert_eq!(plan.route, Route::Agent(true));
    assert!(plan.prompt.ends_with("SM读取文件 password: x"));
    assert_eq!(plan.args.last(), Some(&plan.prompt));
    assert!(plan.logged_args.last().unwrap().ends_with("*** ***"));
    assert!(plan.notice.unwrap().contains("MCP config: /c"));
    assert_eq!(plan.base_url, "https://api.deepseek.com");
    let plan = terminal_start(&s, &options("tui", ""), &context("k"));
    assert_eq!(plan.route, Route::Terminal);
    assert!(plan.notice.is_none());
}

#[test]
fn streamed_answers_are_announced_where_asked_for() {
    let mut s = settings();
    s.model = " m ".to_string();
    s.harness_enabled = true;
    let plan = terminal_start(&s, &options("exec", "hello"), &context("k"));
    assert_eq!(plan.route, Route::Stream);
    assert_eq!(plan.banner, Some(tell_stream("m", &plan.base_url)));
    s.harness_enabled = false;
    let plan = terminal_start(&s, &options("exec", "hello"), &context("k"));
    assert_eq!((plan.route, plan.banner), (Route::Stream, None));
    s.harness_enabled = true;
    let plan = terminal_start(&s, &options("tui", ""), &context("k"));
    assert!(plan.banner.is_none());
}

#[test]
fn keys_stay_out_of_arguments() {
    let s = settings();
    let one = terminal_start(&s, &options("exec", "p"), &context("secret-one"));
    let two = terminal_start(&s, &options("exec", "p"), &context("secret-two"));
    assert_eq!(one.args, two.args);
    assert_eq!(one.logged_args, two.logged_args);
    assert!(one.args.iter().all(|a| !a.contains("secret")));
}

#[test]
fn sessions_close_with_a_word() {
    assert_eq!(tell_closing(Route::Browser, "o", 0).as_deref(), Some("\r\no\r\n"));
    assert_eq!(tell_closing(Route::Stream, "o", 0), None);
    assert_eq!(tell_closing(Route::Stream, "o", -1).as_deref(), Some("o"));
    assert_eq!(tell_closing(Route::Agent(true), "o", 1), None);
    assert_eq!(tell_closing(Route::Terminal, "o", 1), None);
}

#[test]
fn sessions_are_named_after_their_time() {
    let name = new_session();
    let millis: i64 = name.strip_prefix("session_").unwrap().parse().unwrap();
    assert!(millis > 1_600_000_000_000);
    assert_eq!(name_session(millis), name);
    assert_eq!(name_session(0), "session_0");
    let answer = started(name.clone(), Some(7));
    assert!(answer.ok && answer.error.is_empty());
    assert_eq!((answer.pid, answer.session_id), (Some(7), Some(name)));
    assert!(answer.final_output.is_none() && answer.exit_code.is_none());
}

#[test]
fn sizes_and_codes_are_kept_in_their_bits() {
    let mut o = options("tui", "");
    assert_eq!(terminal_size(&o), (24, 80));
    o.rows = 65537;
    o.cols = -1;
    assert_eq!(terminal_size(&o), (1, 65535));
    assert_eq!(reported_exit(Some(3)), 3);
    assert_eq!(reported_exit(Some(u32::MAX)), -1);
    assert_eq!(reported_exit(None), -1);
}

#[test]
fn results_are_handed_out_once() {
    let mut table = ResultTable::new();
    table.insert("a", 0, "one");
    table.insert("b", 1, "two");
    table.insert("a", 2, "three");
    assert!(terminal_result(&mut table, "").is_none());
    assert!(terminal_result(&mut table, "z").is_none());
    let a = terminal_result(&mut table, "a").unwrap();
    assert_eq!((a.session_id.as_str(), a.exit_code, a.final_output.as_str()), ("a", 2, "three"));
    assert!(terminal_result(&mut table, "a").is_none());
    let b = table.take("b").unwrap();
    assert_eq!(b.final_output, "two");
}

#[test]
fn the_runtime_is_described() {
    let mut s = settings();
    let check = check_runtime(&s, true);
    assert_eq!((check.selected.as_str(), check.system.as_str()), ("deepseek", "deepseek"));
    assert!(check.selected_exists && check.system_exists && !check.bundled_exists);
    s.binary_mode = "custom".to_string();
    s.custom_binary_path = "/own".to_string();
    assert_eq!(check_runtime(&s, false).selected, "/own");
    let snapshot = get_runtime_snapshot();
    assert_eq!((snapshot.status.as_str(), snapshot.source.as_str()), ("idle", "none"));
    assert_eq!(snapshot.counts.get_int("cancelled"), Some(0));
    assert!(chrono::DateTime::parse_from_rfc3339(&snapshot.updated_at).is_ok());
    assert!(snapshot.updated_at.ends_with("+00:00"));
    let fraction = &snapshot.updated_at[19..snapshot.updated_at.len() - 6];
    assert!([0, 4, 7, 10].contains(&fraction.len()));
    assert_eq!(&snapshot.updated_at[10..11], "T");
}

#[test]
fn editors_are_opened() {
    assert_eq!(editor_commands("cursor", true), Some(vec!["cursor.cmd".to_string(), "code".to_string()]));
    assert_eq!(editor_commands("cursor", false), Some(vec!["cursor".to_string()]));
    assert_eq!(editor_commands("vscode", true), Some(vec!["code.cmd".to_string(), "code".to_string()]));
    assert_eq!(editor_commands("vscode", false), Some(vec!["code".to_string()]));
    assert_eq!(editor_commands("vim", false), None);
    let opened = open_workspace_editor("vscode", "/w", true, &vec![false, true]);
    assert!(opened.ok);
    assert_eq!(opened.command.as_deref(), Some("code /w"));
    assert_eq!((opened.editor.as_deref(), opened.path.as_deref()), (Some("vscode"), Some("/w")));
    let first = open_workspace_editor("cursor", "/w", true, &vec![true, true]);
    assert_eq!(first.command.as_deref(), Some("cursor.cmd /w"));
    let unknown = open_workspace_editor("vim", "/w", false, &vec![true]);
    assert_eq!((unknown.ok, unknown.error.as_str()), (false, "Unsupported editor"));
    let gone = open_workspace_editor("cursor", "/w", false, &vec![false, true]);
    assert_eq!(gone.error, "cursor command is not available");
    assert!(gone.editor.is_none() && gone.path.is_none() && gone.command.is_none());
    assert!(!open_workspace_editor("cursor", "/w", false, &vec![]).ok);
    assert!(matches!(editor_outcome("vim", true, &vec![]), EditorOutcome::Unsupported));
    assert!(matches!(editor_outcome("vscode", true, &vec![false]), EditorOutcome::Unavailable));
    let told = answer_editor("vscode", "/w", &EditorOutcome::Opened("code".to_string()));
    assert_eq!(told.command.as_deref(), Some("code /w"));
}
