//! The configuration of the tool servers (MCP): what is generated from the settings,
//! and what the user wrote.

use vstd::prelude::*;
use crate::json::{
    field_trees, law_texts_are_taken_in_order, law_the_first_field_is_found, lemma_field_trees_push,
    lemma_tree, text_items, text_json, text_trees, texts_json, Json, JsonTree,
};
use crate::json_text::{
    fields_within, lemma_ordered_twice, lemma_ordered_within, ordered, parse_json, parsed_json, plain_within,
    pretty_json, pretty_text, reads_as,
};
use crate::paths::FilePath;
use crate::search::ends;
use crate::settings::Settings;
use crate::skills::SkillTemplate;
use crate::text::{is_blank, lemma_trim_of_fixed, same, trim_str, trimmed, views, CharClass};

verus! {

/// What came of saving a configuration.
pub struct McpConfigSaveResult {
    pub ok: bool,
    pub error: String,
    pub path: String,
    pub content: String,
}

/// The arguments of the server for files.
pub open spec fn filesystem_args(workspace: Seq<char>) -> Seq<Seq<char>> {
    seq!["-y"@, "@modelcontextprotocol/server-filesystem"@, workspace]
}

/// The arguments of the server for the browser.
pub open spec fn playwright_args(output_dir: Seq<char>) -> Seq<Seq<char>> {
    seq![
        "-y"@,
        "@playwright/mcp"@,
        "--browser"@,
        "chrome"@,
        "--headless"@,
        "--output-dir"@,
        output_dir,
        "--timeout-action"@,
        "15000"@,
        "--timeout-navigation"@,
        "90000"@,
    ]
}

/// A list of texts as JSON.
pub open spec fn text_list(list: Seq<Seq<char>>) -> JsonTree {
    JsonTree::List(text_trees(list))
}

/// The server for files.
pub open spec fn filesystem_server(workspace: Seq<char>) -> Seq<(Seq<char>, JsonTree)> {
    seq![
        ("command"@, JsonTree::Text("npx"@)),
        ("args"@, text_list(filesystem_args(workspace))),
        ("env"@, JsonTree::Object(seq![])),
        ("url"@, JsonTree::Null),
        ("connect_timeout"@, JsonTree::Null),
        ("execute_timeout"@, JsonTree::Null),
        ("read_timeout"@, JsonTree::Null),
        ("disabled"@, JsonTree::Bool(false)),
        ("enabled"@, JsonTree::Bool(true)),
        ("required"@, JsonTree::Bool(false)),
        ("enabled_tools"@, text_list(seq![])),
        ("disabled_tools"@, text_list(seq![])),
    ]
}

/// A server that is called with arguments and has no more to say.
pub open spec fn plain_server(args: Seq<Seq<char>>) -> Seq<(Seq<char>, JsonTree)> {
    seq![
        ("command"@, JsonTree::Text("npx"@)),
        ("args"@, text_list(args)),
        ("env"@, JsonTree::Object(seq![])),
        ("url"@, JsonTree::Null),
        ("disabled"@, JsonTree::Bool(false)),
        ("enabled"@, JsonTree::Bool(true)),
    ]
}

/// The servers that the program knows. `workspace` and `output_dir` are the paths of
/// the workspace and of the directory for pictures and videos.
pub open spec fn preset_server(
    id: Seq<char>,
    workspace: Seq<char>,
    output_dir: Seq<char>,
) -> Option<JsonTree> {
    if id == "filesystem"@ {
        Some(JsonTree::Object(filesystem_server(workspace)))
    } else if id == "playwright"@ {
        Some(JsonTree::Object(plain_server(playwright_args(output_dir))))
    } else if id == "context7"@ {
        Some(JsonTree::Object(plain_server(seq!["-y"@, "@upstash/context7-mcp"@])))
    } else {
        None
    }
}

fn put(fields: &mut Vec<(String, Json)>, key: &str, value: Json)
    ensures
        field_trees(final(fields)@) == field_trees(old(fields)@).push((key@, value@)),
{
    broadcast use lemma_field_trees_push;

    fields.push((key.to_string(), value));
}

fn object(fields: Vec<(String, Json)>) -> (r: Json)
    ensures
        r@ == JsonTree::Object(field_trees(fields@)),
{
    broadcast use lemma_tree;

    Json::Object(fields)
}

fn empty_object() -> (r: Json)
    ensures
        r@ == JsonTree::Object(seq![]),
{
    let fields: Vec<(String, Json)> = Vec::new();
    assert(field_trees(fields@) =~= seq![]);
    object(fields)
}

fn empty_list() -> (r: Json)
    ensures
        r@ == text_list(seq![]),
{
    let list: Vec<String> = Vec::new();
    assert(views(list@) =~= seq![]);
    texts_json(&list)
}

fn make_filesystem_server(workspace: &str) -> (r: Json)
    ensures
        r@ == JsonTree::Object(filesystem_server(workspace@)),
{
    let mut args: Vec<String> = Vec::new();
    args.push("-y".to_string());
    args.push("@modelcontextprotocol/server-filesystem".to_string());
    args.push(workspace.to_string());
    assert(views(args@) =~= filesystem_args(workspace@));
    let mut fields: Vec<(String, Json)> = Vec::new();
    assert(field_trees(fields@) =~= seq![]);
    put(&mut fields, "command", text_json("npx"));
    put(&mut fields, "args", texts_json(&args));
    put(&mut fields, "env", empty_object());
    put(&mut fields, "url", Json::Null);
    put(&mut fields, "connect_timeout", Json::Null);
    put(&mut fields, "execute_timeout", Json::Null);
    put(&mut fields, "read_timeout", Json::Null);
    put(&mut fields, "disabled", Json::Bool(false));
    put(&mut fields, "enabled", Json::Bool(true));
    put(&mut fields, "required", Json::Bool(false));
    put(&mut fields, "enabled_tools", empty_list());
    put(&mut fields, "disabled_tools", empty_list());
    assert(field_trees(fields@) =~= filesystem_server(workspace@));
    object(fields)
}

fn make_plain_server(args: &Vec<String>) -> (r: Json)
    ensures
        r@ == JsonTree::Object(plain_server(views(args@))),
{
    let mut fields: Vec<(String, Json)> = Vec::new();
    assert(field_trees(fields@) =~= seq![]);
    put(&mut fields, "command", text_json("npx"));
    put(&mut fields, "args", texts_json(args));
    put(&mut fields, "env", empty_object());
    put(&mut fields, "url", Json::Null);
    put(&mut fields, "disabled", Json::Bool(false));
    put(&mut fields, "enabled", Json::Bool(true));
    assert(field_trees(fields@) =~= plain_server(views(args@)));
    object(fields)
}

/// The server that an identifier stands for.
pub fn mcp_preset_server(id: &str, workspace: &str, output_dir: &str) -> (r: Option<Json>)
    ensures
        match r {
            Some(server) => preset_server(id@, workspace@, output_dir@) == Some(server@),
            None => preset_server(id@, workspace@, output_dir@) is None,
        },
{
    if same(id, "filesystem") {
        Some(make_filesystem_server(workspace))
    } else if same(id, "playwright") {
        let mut args: Vec<String> = Vec::new();
        args.push("-y".to_string());
        args.push("@playwright/mcp".to_string());
        args.push("--browser".to_string());
        args.push("chrome".to_string());
        args.push("--headless".to_string());
        args.push("--output-dir".to_string());
        args.push(output_dir.to_string());
        args.push("--timeout-action".to_string());
        args.push("15000".to_string());
        args.push("--timeout-navigation".to_string());
        args.push("90000".to_string());
        assert(views(args@) =~= playwright_args(output_dir@));
        Some(make_plain_server(&args))
    } else if same(id, "context7") {
        let mut args: Vec<String> = Vec::new();
        args.push("-y".to_string());
        args.push("@upstash/context7-mcp".to_string());
        assert(views(args@) =~= seq!["-y"@, "@upstash/context7-mcp"@]);
        Some(make_plain_server(&args))
    } else {
        None
    }
}

/// The servers of a list that the program knows, each under its identifier.
pub open spec fn known_servers(
    ids: Seq<Seq<char>>,
    workspace: Seq<char>,
    output_dir: Seq<char>,
) -> Seq<(Seq<char>, JsonTree)>
    decreases ids.len(),
{
    if ids.len() == 0 {
        seq![]
    } else {
        let before = known_servers(ids.drop_last(), workspace, output_dir);
        match preset_server(ids.last(), workspace, output_dir) {
            Some(server) => before.push((ids.last(), server)),
            None => before,
        }
    }
}

/// How long the servers may take.
pub open spec fn timeouts() -> Seq<(Seq<char>, JsonTree)> {
    seq![
        ("connect_timeout"@, JsonTree::Int(10)),
        ("execute_timeout"@, JsonTree::Int(300)),
        ("read_timeout"@, JsonTree::Int(300)),
    ]
}

/// The configuration that is generated from a list of identifiers.
pub open spec fn generated_config(
    ids: Seq<Seq<char>>,
    workspace: Seq<char>,
    output_dir: Seq<char>,
) -> JsonTree {
    JsonTree::Object(
        seq![
            ("timeouts"@, JsonTree::Object(timeouts())),
            ("servers"@, JsonTree::Object(known_servers(ids, workspace, output_dir))),
        ],
    )
}

fn collect_servers(ids: &Vec<String>, workspace: &str, output_dir: &str) -> (r: Vec<(String, Json)>)
    ensures
        field_trees(r@) == known_servers(views(ids@), workspace@, output_dir@),
{
    broadcast use lemma_field_trees_push;

    let ghost all = views(ids@);
    let mut servers: Vec<(String, Json)> = Vec::new();
    let mut i: usize = 0;
    assert(field_trees(servers@) =~= seq![]);
    assert(all.take(0) =~= seq![]);
    while i < ids.len()
        invariant
            i <= ids@.len(),
            all == views(ids@),
            field_trees(servers@) == known_servers(all.take(i as int), workspace@, output_dir@),
        decreases ids@.len() - i,
    {
        let ghost upto = all.take(i + 1);
        assert(upto.drop_last() =~= all.take(i as int));
        assert(upto.last() == ids@[i as int]@);
        if let Some(server) = mcp_preset_server(ids[i].as_str(), workspace, output_dir) {
            servers.push((ids[i].clone(), server));
        }
        i = i + 1;
    }
    assert(all.take(i as int) =~= all);
    servers
}

fn make_config(servers: Vec<(String, Json)>) -> (r: Json)
    ensures
        r@ == JsonTree::Object(
            seq![
                ("timeouts"@, JsonTree::Object(timeouts())),
                ("servers"@, JsonTree::Object(field_trees(servers@))),
            ],
        ),
{
    let mut times: Vec<(String, Json)> = Vec::new();
    assert(field_trees(times@) =~= seq![]);
    put(&mut times, "connect_timeout", Json::Int(10));
    put(&mut times, "execute_timeout", Json::Int(300));
    put(&mut times, "read_timeout", Json::Int(300));
    assert(field_trees(times@) =~= timeouts());
    let mut fields: Vec<(String, Json)> = Vec::new();
    assert(field_trees(fields@) =~= seq![]);
    let ghost trees = field_trees(servers@);
    put(&mut fields, "timeouts", object(times));
    put(&mut fields, "servers", object(servers));
    assert(field_trees(fields@) =~= seq![
        ("timeouts"@, JsonTree::Object(timeouts())),
        ("servers"@, JsonTree::Object(trees)),
    ]);
    object(fields)
}

proof fn lemma_texts_plain(list: Seq<Seq<char>>, limit: nat)
    requires
        limit > 0,
    ensures
        plain_within(text_list(list), limit),
{
    let items = text_trees(list);
    assert forall|i: int| 0 <= i < items.len() implies plain_within(
        #[trigger] items[i],
        (limit - 1) as nat,
    ) by {
        assert(items[i] is Text);
    }
}

proof fn lemma_preset_plain(id: Seq<char>, workspace: Seq<char>, output_dir: Seq<char>)
    ensures
        preset_server(id, workspace, output_dir) matches Some(server) ==> plain_within(server, 2),
{
    let none: Seq<(Seq<char>, JsonTree)> = seq![];
    assert(plain_within(JsonTree::Object(none), 1));
    lemma_texts_plain(filesystem_args(workspace), 1);
    lemma_texts_plain(seq![], 1);
    lemma_texts_plain(playwright_args(output_dir), 1);
    lemma_texts_plain(seq!["-y"@, "@upstash/context7-mcp"@], 1);
    reveal_with_fuel(plain_within, 3);
    assert(plain_within(JsonTree::Object(filesystem_server(workspace)), 2));
    assert(plain_within(JsonTree::Object(plain_server(playwright_args(output_dir))), 2));
    assert(plain_within(
        JsonTree::Object(plain_server(seq!["-y"@, "@upstash/context7-mcp"@])),
        2,
    ));
}

proof fn lemma_known_plain(ids: Seq<Seq<char>>, workspace: Seq<char>, output_dir: Seq<char>)
    ensures
        fields_within(known_servers(ids, workspace, output_dir), 2),
    decreases ids.len(),
{
    let list = known_servers(ids, workspace, output_dir);
    if ids.len() == 0 {
        assert(list =~= seq![]);
    } else {
        let before = known_servers(ids.drop_last(), workspace, output_dir);
        lemma_known_plain(ids.drop_last(), workspace, output_dir);
        lemma_preset_plain(ids.last(), workspace, output_dir);
        assert forall|i: int| 0 <= i < list.len() implies plain_within((#[trigger] list[i]).1, 2) by {
            if i < before.len() {
                assert(list[i] == before[i]);
            }
        }
    }
}

proof fn lemma_config_plain(ids: Seq<Seq<char>>, workspace: Seq<char>, output_dir: Seq<char>)
    ensures
        plain_within(ordered(generated_config(ids, workspace, output_dir)), 100),
{
    lemma_known_plain(ids, workspace, output_dir);
    let tree = generated_config(ids, workspace, output_dir);
    reveal_with_fuel(plain_within, 3);
    let servers = JsonTree::Object(known_servers(ids, workspace, output_dir));
    lemma_deeper_fields(known_servers(ids, workspace, output_dir), 2, 98);
    assert(plain_within(servers, 99));
    assert(plain_within(JsonTree::Object(timeouts()), 99));
    assert(plain_within(tree, 100));
    lemma_ordered_within(tree, 100);
}

proof fn lemma_deeper(tree: JsonTree, limit: nat, more: nat)
    requires
        plain_within(tree, limit),
        limit <= more,
    ensures
        plain_within(tree, more),
    decreases limit,
{
    match tree {
        JsonTree::List(items) => {
            assert forall|i: int| 0 <= i < items.len() implies plain_within(
                #[trigger] items[i],
                (more - 1) as nat,
            ) by {
                lemma_deeper(items[i], (limit - 1) as nat, (more - 1) as nat);
            }
        },
        JsonTree::Object(fields) => {
            assert forall|i: int| 0 <= i < fields.len() implies plain_within(
                (#[trigger] fields[i]).1,
                (more - 1) as nat,
            ) by {
                lemma_deeper(fields[i].1, (limit - 1) as nat, (more - 1) as nat);
            }
        },
        _ => {},
    }
}

proof fn lemma_deeper_fields(fields: Seq<(Seq<char>, JsonTree)>, limit: nat, more: nat)
    requires
        fields_within(fields, limit),
        limit <= more,
    ensures
        fields_within(fields, more),
{
    assert forall|i: int| 0 <= i < fields.len() implies plain_within(
        (#[trigger] fields[i]).1,
        more,
    ) by {
        lemma_deeper(fields[i].1, limit, more);
    }
}

/// The text of the configuration that is generated from the settings. It can be read
/// as JSON again.
pub fn generated_mcp_config_text(settings: &Settings, workspace: &str, output_dir: &str) -> (r:
    Result<String, String>)
    ensures
        r matches Ok(text) && {
            let config = generated_config(
                views(settings.enabled_mcp_servers@),
                workspace@,
                output_dir@,
            );
            &&& text@ == pretty_text(ordered(config))
            &&& reads_as(text@, ordered(config))
        },
{
    let servers = collect_servers(&settings.enabled_mcp_servers, workspace, output_dir);
    proof {
        lemma_config_plain(views(settings.enabled_mcp_servers@), workspace@, output_dir@);
    }
    pretty_json(&make_config(servers))
}

/// What is done about the configuration before a terminal starts.
pub enum McpPlan {
    /// There is none.
    Nothing,
    /// The user's own is taken as it is.
    Custom(String),
    /// The text is written to the file for generated configurations.
    Generated(String),
}

/// Says what is done about the configuration before a terminal starts: nothing unless
/// servers are switched on; the user's own file, if there is one; else a generated one,
/// if the program knows a server of the list.
pub fn ensure_mcp_config(settings: &Settings, workspace: &str, output_dir: &str) -> (r: McpPlan)
    ensures
        match r {
            McpPlan::Nothing => !settings.mcp_enabled || (trimmed(settings.mcp_config_path@).len()
                == 0 && known_servers(
                views(settings.enabled_mcp_servers@),
                workspace@,
                output_dir@,
            ).len() == 0),
            McpPlan::Custom(path) => settings.mcp_enabled && path@.len() > 0 && path@ == trimmed(
                settings.mcp_config_path@,
            ),
            McpPlan::Generated(text) => {
                let ids = views(settings.enabled_mcp_servers@);
                &&& settings.mcp_enabled
                &&& trimmed(settings.mcp_config_path@).len() == 0
                &&& known_servers(ids, workspace@, output_dir@).len() > 0
                &&& text@ == pretty_text(ordered(generated_config(ids, workspace@, output_dir@)))
                &&& reads_as(text@, ordered(generated_config(ids, workspace@, output_dir@)))
            },
        },
{
    if !settings.mcp_enabled {
        return McpPlan::Nothing;
    }
    let custom = trim_str(settings.mcp_config_path.as_str());
    if !custom.as_str().is_empty() {
        return McpPlan::Custom(custom);
    }
    let servers = collect_servers(&settings.enabled_mcp_servers, workspace, output_dir);
    if servers.len() == 0 {
        assert(field_trees(servers@).len() == 0);
        return McpPlan::Nothing;
    }
    assert(field_trees(servers@).len() > 0);
    proof {
        lemma_config_plain(views(settings.enabled_mcp_servers@), workspace@, output_dir@);
    }
    match pretty_json(&make_config(servers)) {
        Ok(text) => McpPlan::Generated(text),
        Err(_) => McpPlan::Nothing,
    }
}

/// The file for generated configurations.
pub fn generated_config_path(data_dir: FilePath) -> (r: FilePath)
    ensures
        r@ == data_dir@.with("mcp.presets.json"@),
{
    data_dir.with("mcp.presets.json")
}

/// The file for configurations that the user wrote.
pub fn custom_config_path(data_dir: FilePath) -> (r: FilePath)
    ensures
        r@ == data_dir@.with("mcp.custom.json"@),
{
    data_dir.with("mcp.custom.json")
}

/// The user's own configuration file: whether it is there and what came of reading it.
pub struct ConfigFile {
    pub exists: bool,
    pub read: Result<String, String>,
}

/// A configuration that is in force: where it is, whose it is, and its text.
pub struct ConfigText {
    pub path: String,
    pub source: String,
    pub text: String,
}

/// The user's own configuration, or what is wrong with it.
pub open spec fn custom_config(
    path: Seq<char>,
    exists: bool,
    read: Result<Seq<char>, Seq<char>>,
) -> Result<Seq<char>, Seq<char>> {
    if !exists {
        Err("MCP config file does not exist: "@ + path)
    } else {
        match read {
            Err(e) => Err(e),
            Ok(content) => match parsed_json(content) {
                Err(e) => Err(e),
                Ok(tree) => Ok(pretty_text(ordered(tree))),
            },
        }
    }
}

/// The configuration that is in force. `file` is the user's own, which is looked at only
/// where the settings name one; `generated` is the path for generated ones.
pub fn mcp_config_text_for_settings(
    settings: &Settings,
    file: &ConfigFile,
    generated: &str,
    workspace: &str,
    output_dir: &str,
) -> (r: Result<ConfigText, String>)
    ensures
        trimmed(settings.mcp_config_path@).len() > 0 ==> {
            let path = trimmed(settings.mcp_config_path@);
            let read = match file.read {
                Ok(content) => Ok(content@),
                Err(e) => Err(e@),
            };
            match (r, custom_config(path, file.exists, read)) {
                (Ok(config), Ok(text)) => config.path@ == path && config.source@ == "custom"@
                    && config.text@ == text,
                (Err(e), Err(complaint)) => e@ == complaint,
                _ => false,
            }
        },
        trimmed(settings.mcp_config_path@).len() == 0 ==> (r matches Ok(config) && {
            let tree = ordered(
                generated_config(views(settings.enabled_mcp_servers@), workspace@, output_dir@),
            );
            &&& config.path@ == generated@
            &&& config.source@ == "generated"@
            &&& config.text@ == pretty_text(tree)
            &&& reads_as(config.text@, tree)
        }),
{
    let custom = trim_str(settings.mcp_config_path.as_str());
    if !custom.as_str().is_empty() {
        if !file.exists {
            let mut complaint = "MCP config file does not exist: ".to_string();
            complaint.append(custom.as_str());
            return Err(complaint);
        }
        return match &file.read {
            Err(e) => Err(e.clone()),
            Ok(content) => match parse_json(content.as_str()) {
                Err(e) => Err(e),
                Ok(json) => match pretty_json(&json) {
                    Err(e) => Err(e),
                    Ok(text) => Ok(
                        ConfigText { path: custom, source: "custom".to_string(), text },
                    ),
                },
            },
        };
    }
    match generated_mcp_config_text(settings, workspace, output_dir) {
        Ok(text) => Ok(
            ConfigText { path: generated.to_string(), source: "generated".to_string(), text },
        ),
        Err(e) => Err(e),
    }
}

/// The text to save for a configuration that the user wrote, or what is wrong with it.
/// What is saved can be read again, up to the depth that is followed and but for
/// numbers other than whole ones.
pub fn save_mcp_config(content: &str) -> (r: Result<String, String>)
    ensures
        match (r, parsed_json(content@)) {
            (Ok(text), Ok(tree)) => text@ == pretty_text(ordered(tree)) && (plain_within(
                ordered(tree),
                100,
            ) ==> reads_as(text@, ordered(tree))),
            (Err(e), Err(message)) => e@ == message,
            _ => false,
        },
{
    match parse_json(content) {
        Ok(json) => pretty_json(&json),
        Err(e) => Err(e),
    }
}

/// A configuration that was saved, and that can be read again, is shown as it was saved
/// when the settings name its file, and saving what is shown changes nothing.
pub proof fn law_saved_configs_are_shown(path: Seq<char>, tree: JsonTree, text: Seq<char>)
    requires
        text == pretty_text(ordered(tree)),
        reads_as(text, ordered(tree)),
    ensures
        custom_config(path, true, Ok(text)) == Ok::<Seq<char>, Seq<char>>(text),
        parsed_json(text) matches Ok(again) && pretty_text(ordered(again)) == text,
{
    lemma_ordered_twice(tree);
}

/// The answer when a configuration was saved.
pub fn saved_mcp_config(path: &str, content: String) -> (r: McpConfigSaveResult)
    ensures
        r.ok,
        r.error@.len() == 0,
        r.path@ == path@,
        r.content == content,
{
    McpConfigSaveResult { ok: true, error: String::new(), path: path.to_string(), content }
}

/// What the user can change about skills and servers.
pub struct CustomizationResult {
    pub skill_root: String,
    pub skill_templates: Vec<SkillTemplate>,
    pub mcp_config_path: String,
    pub mcp_config_source: String,
    pub mcp_config_text: String,
    pub mcp_config_error: String,
}

/// The directory with the skills that is shown.
pub open spec fn shown_root(dir: Seq<char>, usual: Seq<char>) -> Seq<char> {
    if dir.len() == 0 {
        usual
    } else {
        dir
    }
}

/// The directory with the skills that an agent works by.
pub open spec fn used_root(dir: Seq<char>, usual: Seq<char>) -> Seq<char> {
    if trimmed(dir).len() == 0 {
        usual
    } else {
        trimmed(dir)
    }
}

/// A directory of the settings is used without the white space around it; where it is
/// blank the usual one is used, but it is shown as it is written.
pub proof fn law_skills_lie_where_the_settings_say(dir: Seq<char>, usual: Seq<char>)
    ensures
        dir.len() == 0 ==> shown_root(dir, usual) == usual && used_root(dir, usual) == usual,
        dir.len() > 0 ==> shown_root(dir, usual) == dir,
        trimmed(dir).len() > 0 ==> used_root(dir, usual) == trimmed(dir),
        trimmed(dir).len() == 0 ==> used_root(dir, usual) == usual,
{
    if dir.len() == 0 {
        lemma_trim_of_fixed(dir, CharClass::White);
    }
}

/// The directory with the skills that is shown: that of the settings as it is written
/// there, else the usual one.
pub fn shown_skill_root(settings: &Settings, usual: &str) -> (r: String)
    ensures
        r@ == if settings.skills_dir@.len() == 0 {
            usual@
        } else {
            settings.skills_dir@
        },
        r@ == shown_root(settings.skills_dir@, usual@),
{
    if settings.skills_dir.as_str().is_empty() {
        usual.to_string()
    } else {
        settings.skills_dir.clone()
    }
}

/// The directory with the skills that an agent works by: that of the settings without
/// white space around it, else the usual one.
pub fn used_skill_root(settings: &Settings, usual: &str) -> (r: String)
    ensures
        r@ == if trimmed(settings.skills_dir@).len() == 0 {
            usual@
        } else {
            trimmed(settings.skills_dir@)
        },
        r@ == used_root(settings.skills_dir@, usual@),
{
    if is_blank(settings.skills_dir.as_str()) {
        usual.to_string()
    } else {
        trim_str(settings.skills_dir.as_str())
    }
}

/// What the user can change about skills and servers. Where there is no configuration,
/// an empty one is shown with what is wrong.
pub fn get_customization(
    settings: &Settings,
    skill_root: &str,
    skill_templates: Vec<SkillTemplate>,
    config: Result<ConfigText, String>,
) -> (r: CustomizationResult)
    ensures
        r.skill_root@ == skill_root@,
        r.skill_templates == skill_templates,
        match config {
            Ok(c) => {
                &&& r.mcp_config_path@ == c.path@
                &&& r.mcp_config_source@ == c.source@
                &&& r.mcp_config_text@ == c.text@
                &&& r.mcp_config_error@.len() == 0
            },
            Err(e) => {
                &&& r.mcp_config_path@ == settings.mcp_config_path@
                &&& r.mcp_config_source@ == "missing"@
                &&& r.mcp_config_text@ == "{}"@
                &&& r.mcp_config_error@ == e@
            },
        },
{
    match config {
        Ok(c) => CustomizationResult {
            skill_root: skill_root.to_string(),
            skill_templates,
            mcp_config_path: c.path,
            mcp_config_source: c.source,
            mcp_config_text: c.text,
            mcp_config_error: String::new(),
        },
        Err(e) => CustomizationResult {
            skill_root: skill_root.to_string(),
            skill_templates,
            mcp_config_path: settings.mcp_config_path.clone(),
            mcp_config_source: "missing".to_string(),
            mcp_config_text: "{}".to_string(),
            mcp_config_error: e,
        },
    }
}

/// There are three servers to choose from. Each is run by the same command, is switched on,
/// and needs no environment; the arguments hand the directory of the files or of the
/// pictures to the server that works there.
pub proof fn law_servers_get_their_directory(
    id: Seq<char>,
    workspace: Seq<char>,
    output_dir: Seq<char>,
)
    ensures
        preset_server(id, workspace, output_dir) is Some == (id == "filesystem"@ || id
            == "playwright"@ || id == "context7"@),
        preset_server(id, workspace, output_dir) matches Some(server) ==> {
            &&& server.text_at("command"@) == Some("npx"@)
            &&& server.bool_at("enabled"@) == Some(true)
            &&& server.bool_at("disabled"@) == Some(false)
            &&& server.field("url"@) == Some(JsonTree::Null)
            &&& server.object_at("env"@) matches Some(env) && env.len() == 0
            &&& server.list_at("args"@) matches Some(items) && {
                let args = text_items(items);
                &&& args.len() == items.len() && args.len() > 1
                &&& args[0] == "-y"@
                &&& id == "filesystem"@ ==> args.len() == 3 && args[1]
                    == "@modelcontextprotocol/server-filesystem"@ && args[2] == workspace
                &&& id == "playwright"@ ==> args.len() == 11 && args[1] == "@playwright/mcp"@
                    && args[5] == "--output-dir"@ && args[6] == output_dir
                &&& id == "context7"@ ==> args.len() == 2 && args[1] == "@upstash/context7-mcp"@
            }
        },
{
    reveal_strlit("filesystem");
    reveal_strlit("playwright");
    reveal_strlit("context7");
    assert("filesystem"@[0] == 'f' && "playwright"@[0] == 'p' && "context7"@[0] == 'c');
    law_texts_are_taken_in_order(seq![], seq![], seq![]);
    if let Some(server) = preset_server(id, workspace, output_dir) {
        let args = if id == "filesystem"@ {
            filesystem_args(workspace)
        } else if id == "playwright"@ {
            playwright_args(output_dir)
        } else {
            seq!["-y"@, "@upstash/context7-mcp"@]
        };
        lemma_server_fields(workspace, args);
        assert(text_items(text_trees(args)) == args);
    }
}

/// What is in the fields of a server.
proof fn lemma_server_fields(workspace: Seq<char>, args: Seq<Seq<char>>)
    ensures
        ({
            let server = JsonTree::Object(filesystem_server(workspace));
            &&& server.field("command"@) == Some(JsonTree::Text("npx"@))
            &&& server.field("args"@) == Some(text_list(filesystem_args(workspace)))
            &&& server.field("env"@) == Some(JsonTree::Object(seq![]))
            &&& server.field("url"@) == Some(JsonTree::Null)
            &&& server.field("disabled"@) == Some(JsonTree::Bool(false))
            &&& server.field("enabled"@) == Some(JsonTree::Bool(true))
        }),
        ({
            let server = JsonTree::Object(plain_server(args));
            &&& server.field("command"@) == Some(JsonTree::Text("npx"@))
            &&& server.field("args"@) == Some(text_list(args))
            &&& server.field("env"@) == Some(JsonTree::Object(seq![]))
            &&& server.field("url"@) == Some(JsonTree::Null)
            &&& server.field("disabled"@) == Some(JsonTree::Bool(false))
            &&& server.field("enabled"@) == Some(JsonTree::Bool(true))
        }),
{
    reveal_strlit("command");
    reveal_strlit("args");
    reveal_strlit("env");
    reveal_strlit("url");
    reveal_strlit("connect_timeout");
    reveal_strlit("execute_timeout");
    reveal_strlit("read_timeout");
    reveal_strlit("disabled");
    reveal_strlit("enabled");
    assert("command"@.len() == 7 && "args"@.len() == 4 && "env"@.len() == 3 && "url"@.len() == 3
        && "connect_timeout"@.len() == 15 && "execute_timeout"@.len() == 15
        && "read_timeout"@.len() == 12 && "disabled"@.len() == 8 && "enabled"@.len() == 7);
    assert("command"@[0] == 'c' && "enabled"@[0] == 'e');
    assert("env"@[0] == 'e' && "url"@[0] == 'u');
    let full = filesystem_server(workspace);
    law_the_first_field_is_found(full, "command"@, 0);
    law_the_first_field_is_found(full, "args"@, 1);
    law_the_first_field_is_found(full, "env"@, 2);
    law_the_first_field_is_found(full, "url"@, 3);
    law_the_first_field_is_found(full, "disabled"@, 7);
    law_the_first_field_is_found(full, "enabled"@, 8);
    let plain = plain_server(args);
    law_the_first_field_is_found(plain, "command"@, 0);
    law_the_first_field_is_found(plain, "args"@, 1);
    law_the_first_field_is_found(plain, "env"@, 2);
    law_the_first_field_is_found(plain, "url"@, 3);
    law_the_first_field_is_found(plain, "disabled"@, 4);
    law_the_first_field_is_found(plain, "enabled"@, 5);
}

/// The servers of a configuration are those that are chosen and known, in the order in
/// which they are chosen.
pub proof fn law_servers_are_listed_in_order(
    a: Seq<Seq<char>>,
    b: Seq<Seq<char>>,
    id: Seq<char>,
    workspace: Seq<char>,
    output_dir: Seq<char>,
)
    ensures
        known_servers(a + b, workspace, output_dir) == known_servers(a, workspace, output_dir)
            + known_servers(b, workspace, output_dir),
        match preset_server(id, workspace, output_dir) {
            Some(server) => known_servers(seq![id], workspace, output_dir) == seq![(id, server)],
            None => known_servers(seq![id], workspace, output_dir).len() == 0,
        },
    decreases b.len(),
{
    assert(seq![id].drop_last() =~= seq![]);
    assert(known_servers(seq![id].drop_last(), workspace, output_dir) =~= seq![]);
    if let Some(server) = preset_server(id, workspace, output_dir) {
        assert(known_servers(seq![id], workspace, output_dir) =~= seq![(id, server)]);
    }
    if b.len() == 0 {
        assert(a + b =~= a);
        assert(known_servers(b, workspace, output_dir) =~= seq![]);
    } else {
        law_servers_are_listed_in_order(a, b.drop_last(), id, workspace, output_dir);
        assert((a + b).drop_last() =~= a + b.drop_last());
        assert(known_servers(a + b, workspace, output_dir) =~= known_servers(
            a,
            workspace,
            output_dir,
        ) + known_servers(b, workspace, output_dir));
    }
}

/// A generated configuration holds the chosen servers, and gives ten seconds to connect and
/// five minutes to run and to read.
pub proof fn law_configs_hold_servers_and_times(
    ids: Seq<Seq<char>>,
    workspace: Seq<char>,
    output_dir: Seq<char>,
)
    ensures
        ({
            let config = generated_config(ids, workspace, output_dir);
            &&& config.object_at("servers"@) == Some(known_servers(ids, workspace, output_dir))
            &&& config.field("timeouts"@) matches Some(times) && {
                &&& times.int_at("connect_timeout"@) == Some(10int)
                &&& times.int_at("execute_timeout"@) == Some(300int)
                &&& times.int_at("read_timeout"@) == Some(300int)
            }
        }),
{
    reveal_strlit("timeouts");
    reveal_strlit("servers");
    reveal_strlit("connect_timeout");
    reveal_strlit("execute_timeout");
    reveal_strlit("read_timeout");
    assert("timeouts"@.len() == 8 && "servers"@.len() == 7 && "read_timeout"@.len() == 12);
    assert("connect_timeout"@.len() == 15 && "execute_timeout"@.len() == 15);
    assert("connect_timeout"@[0] == 'c' && "execute_timeout"@[0] == 'e');
    law_the_first_field_is_found(timeouts(), "connect_timeout"@, 0);
    law_the_first_field_is_found(timeouts(), "execute_timeout"@, 1);
    law_the_first_field_is_found(timeouts(), "read_timeout"@, 2);
    let fields = seq![
        ("timeouts"@, JsonTree::Object(timeouts())),
        ("servers"@, JsonTree::Object(known_servers(ids, workspace, output_dir))),
    ];
    law_the_first_field_is_found(fields, "timeouts"@, 0);
    law_the_first_field_is_found(fields, "servers"@, 1);
}

/// The user's own configuration is shown if it is there, can be read and is JSON; otherwise
/// the complaint is the one that fits, and one about a missing file names it.
pub proof fn law_own_configs_are_shown_if_they_can_be(
    path: Seq<char>,
    read: Result<Seq<char>, Seq<char>>,
    content: Seq<char>,
    error: Seq<char>,
)
    ensures
        custom_config(path, false, read) matches Err(complaint) && ends(complaint, path),
        custom_config(path, true, Err(error)) == Err::<Seq<char>, Seq<char>>(error),
        match parsed_json(content) {
            Ok(tree) => custom_config(path, true, Ok(content)) == Ok::<Seq<char>, Seq<char>>(
                pretty_text(ordered(tree)),
            ),
            Err(e) => custom_config(path, true, Ok(content)) == Err::<Seq<char>, Seq<char>>(e),
        },
{
    let complaint = "MCP config file does not exist: "@ + path;
    assert(complaint.subrange(complaint.len() - path.len(), complaint.len() as int) =~= path);
}

} // verus!
