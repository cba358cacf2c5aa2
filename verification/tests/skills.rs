use std::path::PathBuf;

use ds_code::mcp_config::{
    custom_config_path, ensure_mcp_config, generated_config_path, generated_mcp_config_text,
    get_customization, mcp_config_text_for_settings, mcp_preset_server, save_mcp_config, saved_mcp_config, shown_skill_root, used_skill_root,
    ConfigFile, McpPlan,
};
use ds_code::json_text::{compact_json, parse_json};
use ds_code::mcp_test::{
    command_exists, judge_mcp_servers, judge_servers, servers_to_test, start_mcp_test,
    test_mcp_servers, CommandSearch, McpProbe, McpTest,
};
use ds_code::new_skill::{
    create_skill_template, created_skill, draft_skill, import_entry, import_skill_directory,
    imported_id, imported_skill, missing_skills,
};
use ds_code::paths::FilePath;
use ds_code::settings::Settings;
use ds_code::skills::{
    build_skill_prompt_prefix, default_skill_content, default_skill_ids, frontmatter_value,
    load_skill_templates, skill_description_from_content, skill_from_file, skill_name_from_content,
    SkillEntry,
};

fn settings() -> Settings {
    Settings::in_workspace("/w".to_string())
}

#[test]
fn presets_have_content() {
    for id in default_skill_ids() {
        assert!(default_skill_content(&id).unwrap().starts_with(&['#', '-'][..]));
    }
    assert!(default_skill_content("other").is_none());
    assert_eq!(
        default_skill_ids(),
        vec!["superpowers", "ui-ux-design", "cron-scheduler", "skill-downloader"]
    );
}

#[test]
fn missing_skills_are_written() {
    let ids = |present: Vec<bool>| -> Vec<String> {
        missing_skills(&present).into_iter().map(|skill| skill.id).collect()
    };
    assert_eq!(ids(vec![false; 4]), default_skill_ids());
    assert_eq!(ids(vec![true, false, true, false]), vec!["ui-ux-design", "skill-downloader"]);
    assert!(ids(vec![true; 4]).is_empty());
    for skill in missing_skills(&vec![false; 4]) {
        assert_eq!(default_skill_content(&skill.id), Some(skill.content.as_str()));
    }
}

#[test]
fn values_are_read_from_the_head() {
    let text = "---\nname: \"My Skill\"\r\n description:  does things \n---\n# Title\n";
    assert_eq!(frontmatter_value(text, "name"), "My Skill");
    assert_eq!(frontmatter_value(text, "description"), "does things");
    assert_eq!(frontmatter_value(text, "other"), "");
    assert_eq!(frontmatter_value("--\nname: x\n---", "name"), "");
    assert_eq!(frontmatter_value("---\nname: x\n", "name"), "");
}

#[test]
fn names_come_from_head_heading_or_identifier() {
    assert_eq!(skill_name_from_content("id", "---\nname: n\n---\n# T"), "n");
    assert_eq!(skill_name_from_content("id", "text\n  # Title \n# Other"), "Title");
    assert_eq!(skill_name_from_content("id", "text\n#\n#no"), "id");
    assert_eq!(
        skill_description_from_content("# x"),
        "Custom agent workflow skill."
    );
    assert_eq!(
        skill_description_from_content("---\ndescription: d\n---"),
        "d"
    );
}

#[test]
fn skills_are_read_from_files() {
    let skill = skill_from_file("id", "/p", "file", "custom", Some("# T")).unwrap();
    assert_eq!(skill.name, "T");
    assert_eq!(skill.path, "/p");
    assert!(skill_from_file("id", "/p", "file", "custom", None).is_none());
}

fn entry(name: &str, content: Option<&str>) -> SkillEntry {
    SkillEntry {
        name: name.to_string(),
        is_dir: true,
        has_file: true,
        path: format!("/s/{}/SKILL.md", name),
        content: content.map(|c| c.to_string()),
    }
}

#[test]
fn directories_with_files_hold_skills() {
    let mut file = entry("file", Some("x"));
    file.is_dir = false;
    let mut bare = entry("bare", Some("x"));
    bare.has_file = false;
    let list = load_skill_templates(&vec![
        entry("superpowers", Some("# S")),
        file,
        bare,
        entry("", Some("x")),
        entry("mine", Some("# M")),
        entry("broken", None),
        entry("mine", Some("# N")),
    ]);
    let found: Vec<(&str, &str, &str)> = list
        .iter()
        .map(|s| (s.id.as_str(), s.name.as_str(), s.origin.as_str()))
        .collect();
    assert_eq!(
        found,
        vec![("superpowers", "S", "preset"), ("mine", "N", "custom")]
    );
}

#[test]
fn enabled_skills_reach_the_prompt() {
    let list = load_skill_templates(&vec![
        entry("superpowers", Some("# S\n\n")),
        entry("mine", Some("---\nname: M\n---\nbody")),
    ]);
    let mut s = settings();
    s.enabled_skills = vec!["mine".to_string(), "none".to_string(), "superpowers".to_string()];
    assert_eq!(
        build_skill_prompt_prefix(&s, Some(&list)),
        "已启用以下 Skills。回答和执行任务时必须按这些指令工作；只有当用户请求明显不相关时才忽略。\n\n## M\n---\nname: M\n---\nbody\n\n## S\n# S\n\n---\n\n"
    );
    s.enabled_skills = vec![];
    assert!(build_skill_prompt_prefix(&s, Some(&list)).contains("## S\n# S"));
    s.enabled_skills = vec!["none".to_string()];
    assert_eq!(build_skill_prompt_prefix(&s, Some(&list)), "");
    assert_eq!(build_skill_prompt_prefix(&s, None), "");
    s.enabled_skills = vec![];
    s.skills_enabled = false;
    assert_eq!(build_skill_prompt_prefix(&s, Some(&list)), "");
}

#[test]
fn new_skills_are_written_with_a_head() {
    let draft = create_skill_template(" ", " My Skill ", "", " ");
    assert_eq!(draft.id, "my-skill");
    assert_eq!(draft.name, "My Skill");
    assert_eq!(draft.description, "Use when My Skill guidance is needed.");
    assert_eq!(
        draft.content,
        "---\nname: my-skill\ndescription: Use when My Skill guidance is needed.\n---\n\n# My Skill\n\n## Overview\n\nDescribe the reusable workflow, trigger conditions, and verification steps for this skill.\n"
    );
    let draft = create_skill_template("X Y", "", " d ", "body ");
    assert_eq!(draft.content, "---\nname: x-y\ndescription: d\n---\n\n# x-y\n\nbody ");
    let answer = created_skill(draft, "/s/x-y/SKILL.md", "/s");
    assert!(answer.ok && answer.error.is_empty());
    assert_eq!(answer.path, "/s/x-y/SKILL.md");
    assert_eq!(answer.skill_root, "/s");
    let skill = answer.skill.unwrap();
    assert_eq!((skill.source.as_str(), skill.origin.as_str()), ("file", "custom"));
    assert_eq!(create_skill_template("", "", "", "").id, "custom-skill");
}

#[test]
fn new_skills_are_found_again_by_identifier_and_description() {
    for (id, name, description) in [("a-b", "Name", "does --- odd things"), ("x", "y", "one line")] {
        let draft = draft_skill(id, name, description, "b");
        assert_eq!(skill_name_from_content(id, &draft.content), id);
    }
    let draft = draft_skill("x", "y", "one line", "b");
    assert_eq!(skill_description_from_content(&draft.content), "one line");
    let draft = create_skill_template(" My Id ", "Name", " what it does ", "---\nname: z");
    assert_eq!(skill_name_from_content("other", &draft.content), "my-id");
    assert_eq!(skill_description_from_content(&draft.content), "what it does");
}

#[test]
fn skills_are_imported() {
    assert_eq!(imported_id("My Dir"), "my-dir");
    assert_eq!(imported_id("密"), "imported-skill");
    let copy = import_entry(&entry("My Dir", Some("# T"))).unwrap();
    assert_eq!((copy.id.as_str(), copy.content.as_str()), ("my-dir", "# T"));
    assert!(import_entry(&entry("x", None)).is_none());
    let mut bare = entry("x", Some("# T"));
    bare.has_file = false;
    assert!(import_entry(&bare).is_none());
    let mut file = entry("x", Some("# T"));
    file.is_dir = false;
    assert!(import_entry(&file).is_none());
    let skill = imported_skill(&copy.id, "/s/my-dir/SKILL.md", &copy.content);
    assert_eq!((skill.name.as_str(), skill.origin.as_str()), ("T", "custom"));
    match import_skill_directory(false, vec![], "/s") {
        Err(e) => assert_eq!(e, "Source directory does not exist"),
        Ok(_) => panic!("imported from nowhere"),
    }
    let answer = import_skill_directory(true, vec![skill], "/s").ok().unwrap();
    assert_eq!((answer.path.as_str(), answer.skills.len()), ("/s", 1));
}

#[test]
fn preset_servers_are_described() {
    let server = mcp_preset_server("filesystem", "/w", "/o").unwrap();
    assert_eq!(
        compact_json(&server).unwrap(),
        r#"{"args":["-y","@modelcontextprotocol/server-filesystem","/w"],"command":"npx","connect_timeout":null,"disabled":false,"disabled_tools":[],"enabled":true,"enabled_tools":[],"env":{},"execute_timeout":null,"read_timeout":null,"required":false,"url":null}"#
    );
    let server = mcp_preset_server("playwright", "/w", "/o").unwrap();
    assert_eq!(
        compact_json(&server).unwrap(),
        r#"{"args":["-y","@playwright/mcp","--browser","chrome","--headless","--output-dir","/o","--timeout-action","15000","--timeout-navigation","90000"],"command":"npx","disabled":false,"enabled":true,"env":{},"url":null}"#
    );
    let server = mcp_preset_server("context7", "/w", "/o").unwrap();
    assert_eq!(
        compact_json(&server).unwrap(),
        r#"{"args":["-y","@upstash/context7-mcp"],"command":"npx","disabled":false,"enabled":true,"env":{},"url":null}"#
    );
    assert!(mcp_preset_server("other", "/w", "/o").is_none());
}

fn with_servers(ids: &[&str]) -> Settings {
    let mut s = settings();
    s.mcp_enabled = true;
    s.enabled_mcp_servers = ids.iter().map(|id| id.to_string()).collect();
    s
}

#[test]
fn generated_configurations_can_be_read() {
    let s = with_servers(&["playwright", "none", "context7", "playwright"]);
    let text = generated_mcp_config_text(&s, "/w", "/o").unwrap();
    let value: serde_json::Value = serde_json::from_str(&text).unwrap();
    let servers: Vec<&String> = value["servers"].as_object().unwrap().keys().collect();
    assert_eq!(servers, vec!["context7", "playwright"]);
    assert_eq!(value["timeouts"]["execute_timeout"].as_i64(), Some(300));
    assert_eq!(serde_json::to_string_pretty(&value).unwrap(), text);
}

#[test]
fn configurations_are_seen_to_before_a_start() {
    let mut s = with_servers(&["none"]);
    assert!(matches!(ensure_mcp_config(&s, "/w", "/o"), McpPlan::Nothing));
    s.enabled_mcp_servers = vec!["context7".to_string()];
    match ensure_mcp_config(&s, "/w", "/o") {
        McpPlan::Generated(text) => {
            assert_eq!(Ok(text), generated_mcp_config_text(&s, "/w", "/o"))
        }
        _ => panic!("not generated"),
    }
    s.mcp_config_path = " /c.json ".to_string();
    match ensure_mcp_config(&s, "/w", "/o") {
        McpPlan::Custom(path) => assert_eq!(path, "/c.json"),
        _ => panic!("not the user's own"),
    }
    s.mcp_enabled = false;
    assert!(matches!(ensure_mcp_config(&s, "/w", "/o"), McpPlan::Nothing));
}

fn config_file(exists: bool, read: Result<&str, &str>) -> ConfigFile {
    ConfigFile {
        exists,
        read: match read {
            Ok(s) => Ok(s.to_string()),
            Err(s) => Err(s.to_string()),
        },
    }
}

#[test]
fn the_configuration_in_force_is_shown() {
    let mut s = with_servers(&["context7"]);
    let none = config_file(false, Ok(""));
    let config = mcp_config_text_for_settings(&s, &none, "/g.json", "/w", "/o").ok().unwrap();
    assert_eq!((config.path.as_str(), config.source.as_str()), ("/g.json", "generated"));
    s.mcp_config_path = " /c.json".to_string();
    let complaint = |file: &ConfigFile| {
        mcp_config_text_for_settings(&s, file, "/g", "/w", "/o").err().unwrap()
    };
    assert_eq!(complaint(&none), "MCP config file does not exist: /c.json");
    assert_eq!(complaint(&config_file(true, Err("denied"))), "denied");
    assert_eq!(
        complaint(&config_file(true, Ok("{"))),
        serde_json::from_str::<serde_json::Value>("{").unwrap_err().to_string()
    );
    let own = config_file(true, Ok("{\"b\":1,\"a\":2}"));
    let config = mcp_config_text_for_settings(&s, &own, "/g", "/w", "/o").ok().unwrap();
    assert_eq!(config.source, "custom");
    assert_eq!(config.text, "{\n  \"a\": 2,\n  \"b\": 1\n}");
    let shown = get_customization(&s, "/root", vec![], Ok(config));
    assert_eq!((shown.mcp_config_path.as_str(), shown.mcp_config_error.as_str()), ("/c.json", ""));
    let shown = get_customization(&s, "/root", vec![], Err("bad".to_string()));
    assert_eq!(shown.mcp_config_path, " /c.json");
    assert_eq!(shown.mcp_config_source, "missing");
    assert_eq!(shown.mcp_config_text, "{}");
    assert_eq!(shown.mcp_config_error, "bad");
}

#[test]
fn skill_directories_are_chosen() {
    let mut s = settings();
    assert_eq!(shown_skill_root(&s, "/usual"), "/usual");
    s.skills_dir = "  ".to_string();
    assert_eq!(shown_skill_root(&s, "/usual"), "  ");
    assert_eq!(used_skill_root(&s, "/usual"), "/usual");
    s.skills_dir = " /own ".to_string();
    assert_eq!(used_skill_root(&s, "/usual"), "/own");
}

#[test]
fn saved_configurations_are_formatted() {
    let text = save_mcp_config("{\"servers\":{}}").unwrap();
    assert_eq!(text, "{\n  \"servers\": {}\n}");
    assert_eq!(
        save_mcp_config("nope"),
        Err(serde_json::from_str::<serde_json::Value>("nope").unwrap_err().to_string())
    );
    let answer = saved_mcp_config("/p", text);
    assert!(answer.ok);
    assert_eq!(answer.path, "/p");
}

#[test]
fn saved_configurations_are_shown() {
    let mut s = with_servers(&[]);
    s.mcp_config_path = "/c.json".to_string();
    for content in ["{\"servers\":{\"b\":1,\"a\":{}}}", "[1, \"x\"]", "null"] {
        let text = save_mcp_config(content).unwrap();
        let file = config_file(true, Ok(&text));
        let config = mcp_config_text_for_settings(&s, &file, "/g", "/w", "/o").ok().unwrap();
        assert_eq!(config.text, text);
        assert_eq!(save_mcp_config(&text), Ok(text));
    }
}

#[test]
fn configurations_lie_in_the_data_directory() {
    let data = || FilePath::given(PathBuf::from("/d"));
    assert_eq!(generated_config_path(data()).parts, vec!["mcp.presets.json"]);
    assert_eq!(custom_config_path(data()).parts, vec!["mcp.custom.json"]);
}

#[test]
fn servers_are_tested() {
    let config = parse_json(
        r#"{"servers":{
            "off":{"command":"a","disabled":true},
            "out":{"command":"a","enabled":false},
            "net":{"url":" http://x "},
            "cmd":{"command":"tool","args":["-v",1,"w"],"env":{"SET":"","FULL":"v","GONE":" ","NUM":3}}
        }}"#,
    )
    .unwrap();
    let servers = servers_to_test(&config);
    let ids: Vec<&str> = servers.iter().map(|s| s.id.as_str()).collect();
    assert_eq!(ids, vec!["cmd", "net"]);
    assert_eq!(servers[0].args, vec!["-v", "w"]);
    assert_eq!(servers[0].open_env, vec!["GONE", "NUM", "SET"]);
    let probes = vec![
        McpProbe {
            command_exists: false,
            env_set: vec![false, false, true],
        },
        McpProbe {
            command_exists: false,
            env_set: vec![],
        },
    ];
    let result = judge_servers("/c".to_string(), &servers, &probes, "now".to_string());
    assert!(!result.ok);
    assert_eq!((result.config_path.as_str(), result.tested_at.as_str()), ("/c", "now"));
    assert_eq!(result.servers[0].missing_env, vec!["GONE", "NUM"]);
    assert_eq!(
        result.servers[0].error,
        "Command not found: tool; Missing environment variables: GONE, NUM"
    );
    assert!(result.servers[1].ok && result.servers[1].command_found);
    assert!(result.servers[1].warnings.is_empty());
    let result = judge_mcp_servers("/c".to_string(), &vec![], &vec![]);
    assert!(result.ok);
    assert!(chrono::DateTime::parse_from_rfc3339(&result.tested_at).is_ok());
    assert!(result.tested_at.ends_with("+00:00"));
}

#[test]
fn configurations_that_cannot_be_used_are_rejected() {
    match start_mcp_test(&Err("gone".to_string()), "/own", "now".to_string()) {
        McpTest::Rejected(answer) => {
            assert!(!answer.ok);
            assert_eq!(answer.config_path, "/own");
            assert_eq!(answer.servers[0].id, "config");
            assert_eq!(answer.servers[0].warnings, vec!["gone"]);
            assert_eq!(answer.servers[0].error, "gone");
        }
        McpTest::Probe(_, _) => panic!("not rejected"),
    }
    let config = ds_code::mcp_config::ConfigText {
        path: "/c".to_string(),
        source: "custom".to_string(),
        text: "{".to_string(),
    };
    let message = serde_json::from_str::<serde_json::Value>("{").unwrap_err().to_string();
    match test_mcp_servers(&Ok(config), "/own") {
        McpTest::Rejected(answer) => {
            assert_eq!(answer.config_path, "/c");
            assert_eq!(answer.servers[0].warnings, vec![format!("Invalid JSON: {}", message)]);
            assert_eq!(answer.servers[0].error, message);
        }
        McpTest::Probe(_, _) => panic!("not rejected"),
    }
}

#[test]
fn generated_servers_pass_with_their_command() {
    let s = with_servers(&["filesystem", "playwright", "context7", "none"]);
    let text = generated_mcp_config_text(&s, "/w", "/o").unwrap();
    let servers = servers_to_test(&parse_json(&text).unwrap());
    let ids: Vec<&str> = servers.iter().map(|s| s.id.as_str()).collect();
    assert_eq!(ids, vec!["context7", "filesystem", "playwright"]);
    for found in [true, false] {
        let probes: Vec<McpProbe> = servers
            .iter()
            .map(|_| McpProbe {
                command_exists: found,
                env_set: vec![],
            })
            .collect();
        let result = judge_servers(String::new(), &servers, &probes, String::new());
        assert!(result.servers.iter().all(|s| s.ok == found && s.command == "npx"));
    }
}

#[test]
fn commands_are_looked_for() {
    assert!(matches!(command_exists("  ", false, false), CommandSearch::Nowhere));
    match command_exists(" /bin/x ", true, false) {
        CommandSearch::At(path) => assert_eq!(path, "/bin/x"),
        _ => panic!("not at its path"),
    }
    match command_exists("npx", false, true) {
        CommandSearch::Named(names) => assert_eq!(names, vec!["npx", "npx.cmd", "npx.exe"]),
        _ => panic!("not by its names"),
    }
    match command_exists("npx.cmd", false, true) {
        CommandSearch::Named(names) => assert_eq!(names, vec!["npx.cmd"]),
        _ => panic!("not by its name"),
    }
    match command_exists("npx", false, false) {
        CommandSearch::Named(names) => assert_eq!(names, vec!["npx"]),
        _ => panic!("not by its name"),
    }
}
