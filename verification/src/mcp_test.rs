//! Testing the tool servers of a configuration.
//!
//! The servers are read from the configuration; the program then looks for their
//! commands and for the variables that they need, and the verdict is made of what it
//! found.

use vstd::prelude::*;
use crate::clock::{is_utc_time, utc_now};
use crate::json::{field_trees, text_items, texts_of, Json, JsonTree};
use crate::json_text::{
    has_key, last_value, lemma_last_value_is, lemma_lookup_ordered, lemma_ordered_from,
    lemma_ordered_keys, ordered, ordered_fields, parse_json, parsed_json,
};
use crate::mcp_config::{
    filesystem_server, generated_config, known_servers, plain_server, playwright_args,
    preset_server, ConfigText,
};
use crate::search::{ends, ends_with};
use crate::split::{join, joined};
use crate::text::{
    chars, clone_list, is_blank, lemma_trim_of_fixed, lemma_views_push, trim_str, trimmed, views,
    CharClass,
};

verus! {

/// What came of testing the servers.
pub struct McpServerTestResult {
    pub ok: bool,
    pub tested_at: String,
    pub config_path: String,
    pub servers: Vec<McpServerStatus>,
}

/// What came of testing a server.
pub struct McpServerStatus {
    pub id: String,
    pub command: String,
    pub args: Vec<String>,
    pub url: String,
    pub ok: bool,
    pub command_found: bool,
    pub missing_env: Vec<String>,
    pub warnings: Vec<String>,
    pub error: String,
}

/// What came of testing a server.
#[verifier::ext_equal]
pub struct StatusView {
    pub id: Seq<char>,
    pub command: Seq<char>,
    pub args: Seq<Seq<char>>,
    pub url: Seq<char>,
    pub ok: bool,
    pub command_found: bool,
    pub missing_env: Seq<Seq<char>>,
    pub warnings: Seq<Seq<char>>,
    pub error: Seq<char>,
}

impl View for McpServerStatus {
    type V = StatusView;

    open spec fn view(&self) -> StatusView {
        StatusView {
            id: self.id@,
            command: self.command@,
            args: views(self.args@),
            url: self.url@,
            ok: self.ok,
            command_found: self.command_found,
            missing_env: views(self.missing_env@),
            warnings: views(self.warnings@),
            error: self.error@,
        }
    }
}

/// The views of a list of verdicts.
pub open spec fn status_views(list: Seq<McpServerStatus>) -> Seq<StatusView> {
    list.map_values(|s: McpServerStatus| s@)
}

/// A server that is to be tested: how it is called or where it is, and the variables
/// that the configuration leaves to the environment.
pub struct McpServer {
    pub id: String,
    pub command: String,
    pub args: Vec<String>,
    pub url: String,
    pub open_env: Vec<String>,
}

/// A server that is to be tested.
#[verifier::ext_equal]
pub struct ServerView {
    pub id: Seq<char>,
    pub command: Seq<char>,
    pub args: Seq<Seq<char>>,
    pub url: Seq<char>,
    pub open_env: Seq<Seq<char>>,
}

impl View for McpServer {
    type V = ServerView;

    open spec fn view(&self) -> ServerView {
        ServerView {
            id: self.id@,
            command: self.command@,
            args: views(self.args@),
            url: self.url@,
            open_env: views(self.open_env@),
        }
    }
}

/// The views of a list of servers.
pub open spec fn server_views(list: Seq<McpServer>) -> Seq<ServerView> {
    list.map_values(|s: McpServer| s@)
}

/// The text in a field, or nothing.
pub open spec fn text_or_nothing(tree: JsonTree, key: Seq<char>) -> Seq<char> {
    match tree.text_at(key) {
        Some(s) => s,
        None => seq![],
    }
}

/// A server is tested unless it is disabled or not enabled.
pub open spec fn to_be_tested(server: JsonTree) -> bool {
    &&& server.bool_at("disabled"@) != Some(true)
    &&& server.bool_at("enabled"@) != Some(false)
}

/// The variables whose value the configuration leaves blank.
pub open spec fn open_keys(env: Seq<(Seq<char>, JsonTree)>) -> Seq<Seq<char>>
    decreases env.len(),
{
    if env.len() == 0 {
        seq![]
    } else {
        let before = open_keys(env.drop_last());
        match env.last().1 {
            JsonTree::Text(value) if trimmed(value).len() > 0 => before,
            _ => before.push(env.last().0),
        }
    }
}

/// A server as the configuration describes it.
pub open spec fn described(id: Seq<char>, server: JsonTree) -> ServerView {
    ServerView {
        id,
        command: text_or_nothing(server, "command"@),
        args: match server.list_at("args"@) {
            Some(items) => text_items(items),
            None => seq![],
        },
        url: text_or_nothing(server, "url"@),
        open_env: match server.object_at("env"@) {
            Some(env) => open_keys(env),
            None => seq![],
        },
    }
}

/// The servers of a configuration that are tested, in its order.
pub open spec fn tested(servers: Seq<(Seq<char>, JsonTree)>) -> Seq<ServerView>
    decreases servers.len(),
{
    if servers.len() == 0 {
        seq![]
    } else {
        let before = tested(servers.drop_last());
        let (id, server) = servers.last();
        if to_be_tested(server) {
            before.push(described(id, server))
        } else {
            before
        }
    }
}

/// The servers of a configuration: none where it has no object of them.
pub open spec fn config_servers(config: JsonTree) -> Seq<(Seq<char>, JsonTree)> {
    match config.object_at("servers"@) {
        Some(servers) => servers,
        None => seq![],
    }
}

fn copy_text(json: &Json, key: &str) -> (r: String)
    ensures
        r@ == text_or_nothing(json@, key@),
{
    match json.get_text(key) {
        Some(s) => s.clone(),
        None => String::new(),
    }
}

fn find_open_keys(env: &Vec<(String, Json)>) -> (r: Vec<String>)
    ensures
        views(r@) == open_keys(field_trees(env@)),
{
    broadcast use lemma_views_push;

    let ghost all = field_trees(env@);
    let mut out: Vec<String> = Vec::new();
    let mut i: usize = 0;
    assert(views(out@) =~= seq![]);
    assert(all.take(0) =~= seq![]);
    while i < env.len()
        invariant
            i <= env@.len(),
            all == field_trees(env@),
            views(out@) == open_keys(all.take(i as int)),
        decreases env@.len() - i,
    {
        let ghost upto = all.take(i + 1);
        assert(upto.drop_last() =~= all.take(i as int));
        assert(upto.last() == (env@[i as int].0@, env@[i as int].1@));
        let blank = match &env[i].1 {
            Json::Text(value) => is_blank(value.as_str()),
            _ => true,
        };
        if blank {
            out.push(env[i].0.clone());
        }
        i = i + 1;
    }
    assert(all.take(i as int) =~= all);
    out
}

fn describe(id: &str, server: &Json) -> (r: McpServer)
    ensures
        r@ == described(id@, server@),
{
    let args = match server.get_list("args") {
        Some(items) => texts_of(items),
        None => Vec::new(),
    };
    let open_env = match server.get_object("env") {
        Some(env) => find_open_keys(env),
        None => Vec::new(),
    };
    let r = McpServer {
        id: id.to_string(),
        command: copy_text(server, "command"),
        args,
        url: copy_text(server, "url"),
        open_env,
    };
    assert(r@ =~= described(id@, server@));
    r
}

fn is_tested(server: &Json) -> (r: bool)
    ensures
        r == to_be_tested(server@),
{
    let disabled = match server.get_bool("disabled") {
        Some(b) => b,
        None => false,
    };
    let enabled = match server.get_bool("enabled") {
        Some(b) => b,
        None => true,
    };
    !(disabled || !enabled)
}

fn collect_tested(servers: &Vec<(String, Json)>) -> (r: Vec<McpServer>)
    ensures
        server_views(r@) == tested(field_trees(servers@)),
{
    let ghost all = field_trees(servers@);
    let mut out: Vec<McpServer> = Vec::new();
    let mut i: usize = 0;
    assert(server_views(out@) =~= seq![]);
    assert(all.take(0) =~= seq![]);
    while i < servers.len()
        invariant
            i <= servers@.len(),
            all == field_trees(servers@),
            server_views(out@) == tested(all.take(i as int)),
        decreases servers@.len() - i,
    {
        let ghost upto = all.take(i + 1);
        assert(upto.drop_last() =~= all.take(i as int));
        assert(upto.last() == (servers@[i as int].0@, servers@[i as int].1@));
        if is_tested(&servers[i].1) {
            let ghost before = out@;
            let server = describe(servers[i].0.as_str(), &servers[i].1);
            let ghost view = server@;
            out.push(server);
            assert(server_views(out@) =~= server_views(before).push(view));
        }
        i = i + 1;
    }
    assert(all.take(i as int) =~= all);
    out
}

/// The servers of a configuration that are tested.
pub fn servers_to_test(config: &Json) -> (r: Vec<McpServer>)
    ensures
        server_views(r@) == tested(config_servers(config@)),
{
    match config.get_object("servers") {
        Some(servers) => collect_tested(servers),
        None => {
            let none: Vec<McpServer> = Vec::new();
            assert(server_views(none@) =~= seq![]);
            none
        },
    }
}

/// The verdict on a configuration that cannot be used.
pub open spec fn config_status(warning: Seq<char>, error: Seq<char>) -> StatusView {
    StatusView {
        id: "config"@,
        command: seq![],
        args: seq![],
        url: seq![],
        ok: false,
        command_found: false,
        missing_env: seq![],
        warnings: seq![warning],
        error,
    }
}

fn reject_config(path: &str, warning: &str, error: &str, tested_at: String) -> (r:
    McpServerTestResult)
    ensures
        !r.ok,
        r.config_path@ == path@,
        r.tested_at == tested_at,
        status_views(r.servers@) == seq![config_status(warning@, error@)],
{
    let mut warnings: Vec<String> = Vec::new();
    warnings.push(warning.to_string());
    let status = McpServerStatus {
        id: "config".to_string(),
        command: String::new(),
        args: Vec::new(),
        url: String::new(),
        ok: false,
        command_found: false,
        missing_env: Vec::new(),
        warnings,
        error: error.to_string(),
    };
    assert(status@ =~= config_status(warning@, error@));
    let ghost view = status@;
    let mut servers: Vec<McpServerStatus> = Vec::new();
    servers.push(status);
    assert(status_views(servers@) =~= seq![view]);
    McpServerTestResult { ok: false, tested_at, config_path: path.to_string(), servers }
}

/// The first half of a test.
pub enum McpTest {
    /// The configuration cannot be used.
    Rejected(McpServerTestResult),
    /// The servers to look for, and the path of the configuration.
    Probe(String, Vec<McpServer>),
}

/// Reads the servers to test from the configuration in force, at a time. `own_path` is
/// the path that the settings name.
pub fn start_mcp_test(config: &Result<ConfigText, String>, own_path: &str, tested_at: String) -> (r:
    McpTest)
    ensures
        match (*config, r) {
            (Err(e), McpTest::Rejected(answer)) => {
                &&& !answer.ok
                &&& answer.config_path@ == own_path@
                &&& answer.tested_at == tested_at
                &&& status_views(answer.servers@) == seq![config_status(e@, e@)]
            },
            (Ok(c), McpTest::Rejected(answer)) => parsed_json(c.text@) matches Err(e) && {
                &&& !answer.ok
                &&& answer.config_path@ == c.path@
                &&& answer.tested_at == tested_at
                &&& status_views(answer.servers@) == seq![
                    config_status("Invalid JSON: "@ + e, e),
                ]
            },
            (Ok(c), McpTest::Probe(path, servers)) => parsed_json(c.text@) matches Ok(tree) && {
                &&& path@ == c.path@
                &&& server_views(servers@) == tested(config_servers(tree))
            },
            _ => false,
        },
{
    match config {
        Err(e) => McpTest::Rejected(reject_config(own_path, e.as_str(), e.as_str(), tested_at)),
        Ok(c) => match parse_json(c.text.as_str()) {
            Err(e) => {
                let mut warning = "Invalid JSON: ".to_string();
                warning.append(e.as_str());
                McpTest::Rejected(
                    reject_config(c.path.as_str(), warning.as_str(), e.as_str(), tested_at),
                )
            },
            Ok(json) => McpTest::Probe(c.path.clone(), servers_to_test(&json)),
        },
    }
}

/// Reads the servers to test from the configuration in force, now.
pub fn test_mcp_servers(config: &Result<ConfigText, String>, own_path: &str) -> (r: McpTest)
    ensures
        match (*config, r) {
            (Err(e), McpTest::Rejected(answer)) => {
                &&& !answer.ok
                &&& answer.config_path@ == own_path@
                &&& is_utc_time(answer.tested_at@)
                &&& status_views(answer.servers@) == seq![config_status(e@, e@)]
            },
            (Ok(c), McpTest::Rejected(answer)) => parsed_json(c.text@) matches Err(e) && {
                &&& !answer.ok
                &&& answer.config_path@ == c.path@
                &&& is_utc_time(answer.tested_at@)
                &&& status_views(answer.servers@) == seq![
                    config_status("Invalid JSON: "@ + e, e),
                ]
            },
            (Ok(c), McpTest::Probe(path, servers)) => parsed_json(c.text@) matches Ok(tree) && {
                &&& path@ == c.path@
                &&& server_views(servers@) == tested(config_servers(tree))
            },
            _ => false,
        },
{
    start_mcp_test(config, own_path, utc_now())
}

/// What the program found of a server: whether its command is there, and of each of
/// the variables that are left to the environment whether it is set.
pub struct McpProbe {
    pub command_exists: bool,
    pub env_set: Vec<bool>,
}

/// The keys of a list that are not set.
pub open spec fn unset(keys: Seq<Seq<char>>, set: Seq<bool>) -> Seq<Seq<char>>
    decreases keys.len(),
{
    if keys.len() == 0 {
        seq![]
    } else {
        let before = unset(keys.drop_last(), set);
        if keys.len() - 1 < set.len() && set[keys.len() - 1] {
            before
        } else {
            before.push(keys.last())
        }
    }
}

/// What is wrong with a server, each in a sentence.
pub open spec fn complaints(
    command: Seq<char>,
    found: bool,
    missing: Seq<Seq<char>>,
) -> Seq<Seq<char>> {
    let first = if found {
        seq![]
    } else {
        seq!["Command not found: "@ + command]
    };
    if missing.len() == 0 {
        first
    } else {
        first.push("Missing environment variables: "@ + joined(missing, ", "@))
    }
}

/// The verdict on a server: it is in order if it has an address or its command is
/// there, and if no variable is missing.
pub open spec fn verdict(server: ServerView, command_exists: bool, env_set: Seq<bool>) -> StatusView {
    let found = trimmed(server.url).len() > 0 || command_exists;
    let missing = unset(server.open_env, env_set);
    let warnings = complaints(server.command, found, missing);
    StatusView {
        id: server.id,
        command: server.command,
        args: server.args,
        url: server.url,
        ok: found && missing.len() == 0,
        command_found: found,
        missing_env: missing,
        warnings,
        error: joined(warnings, "; "@),
    }
}

fn find_unset(keys: &Vec<String>, set: &Vec<bool>) -> (r: Vec<String>)
    ensures
        views(r@) == unset(views(keys@), set@),
{
    broadcast use lemma_views_push;

    let ghost all = views(keys@);
    let mut out: Vec<String> = Vec::new();
    let mut i: usize = 0;
    assert(views(out@) =~= seq![]);
    assert(all.take(0) =~= seq![]);
    while i < keys.len()
        invariant
            i <= keys@.len(),
            all == views(keys@),
            views(out@) == unset(all.take(i as int), set@),
        decreases keys@.len() - i,
    {
        let ghost upto = all.take(i + 1);
        assert(upto.drop_last() =~= all.take(i as int));
        assert(upto.last() == keys@[i as int]@);
        if !(i < set.len() && set[i]) {
            out.push(keys[i].clone());
        }
        i = i + 1;
    }
    assert(all.take(i as int) =~= all);
    out
}

/// The verdict on a server.
pub fn judge_server(server: &McpServer, probe: &McpProbe) -> (r: McpServerStatus)
    ensures
        r@ == verdict(server@, probe.command_exists, probe.env_set@),
{
    broadcast use lemma_views_push;

    let found = !is_blank(server.url.as_str()) || probe.command_exists;
    let missing = find_unset(&server.open_env, &probe.env_set);
    let mut warnings: Vec<String> = Vec::new();
    if !found {
        let mut text = "Command not found: ".to_string();
        text.append(server.command.as_str());
        warnings.push(text);
    }
    if missing.len() > 0 {
        let mut text = "Missing environment variables: ".to_string();
        text.append(join(&missing, ", ").as_str());
        warnings.push(text);
    }
    assert(views(warnings@) =~= complaints(server.command@, found, views(missing@)));
    let error = join(&warnings, "; ");
    let r = McpServerStatus {
        id: server.id.clone(),
        command: server.command.clone(),
        args: clone_list(&server.args),
        url: server.url.clone(),
        ok: found && missing.len() == 0,
        command_found: found,
        missing_env: missing,
        warnings,
        error,
    };
    assert(r@ =~= verdict(server@, probe.command_exists, probe.env_set@));
    r
}

/// The verdicts on a list of servers.
pub open spec fn verdicts(servers: Seq<ServerView>, probes: Seq<McpProbe>) -> Seq<StatusView> {
    Seq::new(
        servers.len(),
        |i: int| verdict(servers[i], probes[i].command_exists, probes[i].env_set@),
    )
}

/// Every server of the list is in order.
pub open spec fn all_ok(list: Seq<StatusView>) -> bool {
    forall|i: int| 0 <= i < list.len() ==> (#[trigger] list[i]).ok
}

/// The answer to a test, by what the program found of each server, at a time.
pub fn judge_servers(
    config_path: String,
    servers: &Vec<McpServer>,
    probes: &Vec<McpProbe>,
    tested_at: String,
) -> (r: McpServerTestResult)
    requires
        servers@.len() == probes@.len(),
    ensures
        status_views(r.servers@) == verdicts(server_views(servers@), probes@),
        r.ok == all_ok(status_views(r.servers@)),
        r.config_path == config_path,
        r.tested_at == tested_at,
{
    let mut out: Vec<McpServerStatus> = Vec::new();
    let mut ok = true;
    let ghost all = verdicts(server_views(servers@), probes@);
    let mut i: usize = 0;
    assert(status_views(out@) =~= all.take(0));
    while i < servers.len()
        invariant
            i <= servers@.len(),
            servers@.len() == probes@.len(),
            all == verdicts(server_views(servers@), probes@),
            status_views(out@) == all.take(i as int),
            ok == all_ok(all.take(i as int)),
        decreases servers@.len() - i,
    {
        let ghost before = out@;
        let status = judge_server(&servers[i], &probes[i]);
        let ghost view = status@;
        let fine = status.ok;
        out.push(status);
        proof {
            let upto = all.take(i + 1);
            assert(all[i as int] == view);
            assert(upto =~= all.take(i as int).push(view));
            assert(status_views(out@) =~= status_views(before).push(view));
            if ok && fine {
                assert forall|k: int| 0 <= k < upto.len() implies (#[trigger] upto[k]).ok by {
                    if k < i {
                        assert(upto[k] == all.take(i as int)[k]);
                    }
                }
            } else if !fine {
                assert(!upto[i as int].ok);
            } else {
                let k = choose|k: int| 0 <= k < i && !(#[trigger] all.take(i as int)[k]).ok;
                assert(upto[k] == all.take(i as int)[k]);
            }
        }
        ok = ok && fine;
        i = i + 1;
    }
    assert(all.take(i as int) =~= all);
    McpServerTestResult { ok, tested_at, config_path, servers: out }
}

/// The answer to a test, by what the program found of each server, now.
pub fn judge_mcp_servers(config_path: String, servers: &Vec<McpServer>, probes: &Vec<McpProbe>) -> (r:
    McpServerTestResult)
    requires
        servers@.len() == probes@.len(),
    ensures
        status_views(r.servers@) == verdicts(server_views(servers@), probes@),
        r.ok == all_ok(status_views(r.servers@)),
        r.config_path == config_path,
        is_utc_time(r.tested_at@),
{
    judge_servers(config_path, servers, probes, utc_now())
}

/// Where a command is looked for.
pub enum CommandSearch {
    /// Nowhere: there is no command.
    Nowhere,
    /// At its own path.
    At(String),
    /// Under these names in the directories of the search path.
    Named(Vec<String>),
}

/// The names of a command in the directories of the search path.
pub open spec fn command_names(command: Seq<char>, windows: bool) -> Seq<Seq<char>> {
    if windows && !ends(command, ".exe"@) && !ends(command, ".cmd"@) {
        seq![command, command + ".cmd"@, command + ".exe"@]
    } else {
        seq![command]
    }
}

/// Says where a command is looked for. `is_path` tells whether it has more than one
/// component without the white space around it.
pub fn command_exists(command: &str, is_path: bool, windows: bool) -> (r: CommandSearch)
    ensures
        match r {
            CommandSearch::Nowhere => trimmed(command@).len() == 0,
            CommandSearch::At(path) => trimmed(command@).len() > 0 && is_path && path@ == trimmed(
                command@,
            ),
            CommandSearch::Named(names) => trimmed(command@).len() > 0 && !is_path && views(names@)
                == command_names(trimmed(command@), windows),
        },
{
    let bare = trim_str(command);
    if bare.as_str().is_empty() {
        return CommandSearch::Nowhere;
    }
    if is_path {
        return CommandSearch::At(bare);
    }
    let all = chars(bare.as_str());
    let mut names: Vec<String> = Vec::new();
    names.push(bare.clone());
    if windows && !ends_with(all.as_slice(), ".exe") && !ends_with(all.as_slice(), ".cmd") {
        let mut script = bare.clone();
        script.append(".cmd");
        let mut program = bare.clone();
        program.append(".exe");
        names.push(script);
        names.push(program);
    }
    assert(views(names@) =~= command_names(trimmed(command@), windows));
    CommandSearch::Named(names)
}

proof fn lemma_plain_described(id: Seq<char>, args: Seq<Seq<char>>)
    ensures
        needs_only_npx(id, ordered(JsonTree::Object(plain_server(args)))),
{
    reveal_strlit("command");
    assert("command"@.len() == 7);
    reveal_strlit("args");
    assert("args"@.len() == 4);
    reveal_strlit("env");
    assert("env"@.len() == 3);
    reveal_strlit("url");
    assert("url"@.len() == 3);
    reveal_strlit("disabled");
    assert("disabled"@.len() == 8);
    reveal_strlit("enabled");
    assert("enabled"@.len() == 7);
    assert("env"@[0] == 'e' && "url"@[0] == 'u' && "command"@[0] == 'c' && "enabled"@[0] == 'e');
    let fields = plain_server(args);
    assert forall|j: int| 0 < j < fields.len() implies (#[trigger] fields[j]).0 != "command"@ by {
        assert(j == 1 || j == 2 || j == 3 || j == 4 || j == 5);
    }
    lemma_last_value_is(fields, "command"@, 0);
    assert forall|j: int| 2 < j < fields.len() implies (#[trigger] fields[j]).0 != "env"@ by {
        if j == 3 {
            assert(fields[j].0[0] == 'u');
        }
        assert(j == 3 || j == 4 || j == 5);
    }
    lemma_last_value_is(fields, "env"@, 2);
    assert forall|j: int| 3 < j < fields.len() implies (#[trigger] fields[j]).0 != "url"@ by {
        assert(j == 4 || j == 5);
    }
    lemma_last_value_is(fields, "url"@, 3);
    assert forall|j: int| 4 < j < fields.len() implies (#[trigger] fields[j]).0 != "disabled"@ by {
        assert(j == 5);
    }
    lemma_last_value_is(fields, "disabled"@, 4);
    lemma_last_value_is(fields, "enabled"@, 5);
    lemma_described(id, fields);
}

proof fn lemma_filesystem_described(id: Seq<char>, workspace: Seq<char>)
    ensures
        needs_only_npx(id, ordered(JsonTree::Object(filesystem_server(workspace)))),
{
    reveal_strlit("command");
    assert("command"@.len() == 7);
    reveal_strlit("args");
    assert("args"@.len() == 4);
    reveal_strlit("env");
    assert("env"@.len() == 3);
    reveal_strlit("url");
    assert("url"@.len() == 3);
    reveal_strlit("connect_timeout");
    assert("connect_timeout"@.len() == 15);
    reveal_strlit("execute_timeout");
    assert("execute_timeout"@.len() == 15);
    reveal_strlit("read_timeout");
    assert("read_timeout"@.len() == 12);
    reveal_strlit("disabled");
    assert("disabled"@.len() == 8);
    reveal_strlit("enabled");
    assert("enabled"@.len() == 7);
    reveal_strlit("required");
    assert("required"@.len() == 8);
    reveal_strlit("enabled_tools");
    assert("enabled_tools"@.len() == 13);
    reveal_strlit("disabled_tools");
    assert("disabled_tools"@.len() == 14);
    assert("env"@[0] == 'e' && "url"@[0] == 'u' && "command"@[0] == 'c' && "enabled"@[0] == 'e');
    assert("required"@[0] == 'r' && "disabled"@[0] == 'd');
    let fields = filesystem_server(workspace);
    assert forall|j: int| 0 < j < fields.len() implies (#[trigger] fields[j]).0 != "command"@ by {
        if j == 8 {
            assert(fields[j].0[0] == 'e');
        }
        assert(j == 1 || j == 2 || j == 3 || j == 4 || j == 5
            || j == 6 || j == 7 || j == 8 || j == 9 || j == 10 || j == 11);
    }
    lemma_last_value_is(fields, "command"@, 0);
    assert forall|j: int| 2 < j < fields.len() implies (#[trigger] fields[j]).0 != "env"@ by {
        if j == 3 {
            assert(fields[j].0[0] == 'u');
        }
        assert(j == 3 || j == 4 || j == 5 || j == 6
            || j == 7 || j == 8 || j == 9 || j == 10 || j == 11);
    }
    lemma_last_value_is(fields, "env"@, 2);
    assert forall|j: int| 3 < j < fields.len() implies (#[trigger] fields[j]).0 != "url"@ by {
        assert(j == 4 || j == 5 || j == 6 || j == 7 || j == 8 || j == 9 || j == 10 || j == 11);
    }
    lemma_last_value_is(fields, "url"@, 3);
    assert forall|j: int| 7 < j < fields.len() implies (#[trigger] fields[j]).0 != "disabled"@ by {
        assert(j == 8 || j == 9 || j == 10 || j == 11);
    }
    lemma_last_value_is(fields, "disabled"@, 7);
    assert forall|j: int| 8 < j < fields.len() implies (#[trigger] fields[j]).0 != "enabled"@ by {
        assert(j == 9 || j == 10 || j == 11);
    }
    lemma_last_value_is(fields, "enabled"@, 8);
    lemma_described(id, fields);
}

/// A server that is tested, and that needs nothing but the command that runs packages.
pub open spec fn needs_only_npx(id: Seq<char>, server: JsonTree) -> bool {
    &&& to_be_tested(server)
    &&& described(id, server).command == "npx"@
    &&& described(id, server).url.len() == 0
    &&& described(id, server).open_env.len() == 0
}

proof fn lemma_described(id: Seq<char>, fields: Seq<(Seq<char>, JsonTree)>)
    requires
        last_value(fields, "command"@) == Some(JsonTree::Text("npx"@)),
        last_value(fields, "env"@) == Some(JsonTree::Object(seq![])),
        last_value(fields, "url"@) == Some(JsonTree::Null),
        last_value(fields, "disabled"@) == Some(JsonTree::Bool(false)),
        last_value(fields, "enabled"@) == Some(JsonTree::Bool(true)),
    ensures
        needs_only_npx(id, ordered(JsonTree::Object(fields))),
{
    lemma_lookup_ordered(fields, "command"@);
    lemma_lookup_ordered(fields, "env"@);
    lemma_lookup_ordered(fields, "url"@);
    lemma_lookup_ordered(fields, "disabled"@);
    lemma_lookup_ordered(fields, "enabled"@);
    let none: Seq<(Seq<char>, JsonTree)> = seq![];
    assert(ordered_fields(none) =~= none);
    assert(ordered(JsonTree::Object(none)) == JsonTree::Object(none));
    assert(open_keys(none).len() == 0);
}

proof fn lemma_all_tested(servers: Seq<(Seq<char>, JsonTree)>)
    requires
        forall|i: int| 0 <= i < servers.len() ==> to_be_tested((#[trigger] servers[i]).1),
    ensures
        tested(servers).len() == servers.len(),
        forall|i: int|
            0 <= i < servers.len() ==> (#[trigger] tested(servers)[i]) == described(
                servers[i].0,
                servers[i].1,
            ),
    decreases servers.len(),
{
    if servers.len() > 0 {
        let front = servers.drop_last();
        assert forall|i: int| 0 <= i < front.len() implies to_be_tested(
            (#[trigger] front[i]).1,
        ) by {
            assert(front[i] == servers[i]);
        }
        lemma_all_tested(front);
        assert(to_be_tested(servers[servers.len() - 1].1));
        assert forall|i: int| 0 <= i < servers.len() implies (#[trigger] tested(servers)[i])
            == described(servers[i].0, servers[i].1) by {
            if i < front.len() {
                assert(tested(servers)[i] == tested(front)[i]);
                assert(front[i] == servers[i]);
            }
        }
    }
}

proof fn lemma_known_server(
    ids: Seq<Seq<char>>,
    workspace: Seq<char>,
    output_dir: Seq<char>,
    j: int,
)
    requires
        0 <= j < known_servers(ids, workspace, output_dir).len(),
    ensures
        ({
            let field = known_servers(ids, workspace, output_dir)[j];
            &&& ids.contains(field.0)
            &&& preset_server(field.0, workspace, output_dir) == Some(field.1)
        }),
    decreases ids.len(),
{
    if ids.len() > 0 {
        let front = ids.drop_last();
        let before = known_servers(front, workspace, output_dir);
        let field = known_servers(ids, workspace, output_dir)[j];
        if j < before.len() {
            lemma_known_server(front, workspace, output_dir, j);
            let k = choose|k: int| 0 <= k < front.len() && front[k] == field.0;
            assert(ids[k] == field.0);
        } else {
            assert(ids[ids.len() - 1] == field.0);
        }
    }
}

proof fn lemma_known_has(
    ids: Seq<Seq<char>>,
    workspace: Seq<char>,
    output_dir: Seq<char>,
    id: Seq<char>,
)
    requires
        ids.contains(id),
        preset_server(id, workspace, output_dir) is Some,
    ensures
        has_key(known_servers(ids, workspace, output_dir), id),
    decreases ids.len(),
{
    let front = ids.drop_last();
    let before = known_servers(front, workspace, output_dir);
    let all = known_servers(ids, workspace, output_dir);
    if ids.last() == id {
        assert(all[before.len() as int].0 == id);
    } else {
        let k = choose|k: int| 0 <= k < ids.len() && ids[k] == id;
        assert(front[k] == id);
        lemma_known_has(front, workspace, output_dir, id);
        let i = choose|i: int| 0 <= i < before.len() && (#[trigger] before[i]).0 == id;
        assert(all[i].0 == id);
    }
}

/// The test of a generated configuration looks at the servers of the settings that the
/// program knows, all of them and no others, and each is in order if the command that
/// runs packages is there.
pub proof fn law_generated_servers_pass_with_npx(
    ids: Seq<Seq<char>>,
    workspace: Seq<char>,
    output_dir: Seq<char>,
)
    ensures
        ({
            let servers = tested(
                config_servers(ordered(generated_config(ids, workspace, output_dir))),
            );
            &&& forall|i: int|
                0 <= i < servers.len() ==> {
                    &&& ids.contains((#[trigger] servers[i]).id)
                    &&& preset_server(servers[i].id, workspace, output_dir) is Some
                    &&& servers[i].command == "npx"@
                    &&& verdict(servers[i], true, seq![]).ok
                    &&& !verdict(servers[i], false, seq![]).ok
                }
            &&& forall|id: Seq<char>|
                #![trigger ids.contains(id)]
                ids.contains(id) && preset_server(id, workspace, output_dir) is Some
                    ==> exists|i: int| 0 <= i < servers.len() && (#[trigger] servers[i]).id == id
        }),
{
    let known = known_servers(ids, workspace, output_dir);
    let config = generated_config(ids, workspace, output_dir);
    let fields = config->Object_0;
    lemma_last_value_is(fields, "servers"@, 1);
    lemma_lookup_ordered(fields, "servers"@);
    let list = config_servers(ordered(config));
    assert(list == ordered_fields(known));
    assert forall|i: int| 0 <= i < list.len() implies {
        &&& needs_only_npx((#[trigger] list[i]).0, list[i].1)
        &&& ids.contains(list[i].0)
        &&& preset_server(list[i].0, workspace, output_dir) is Some
    } by {
        lemma_ordered_from(known, i);
        let j = choose|j: int|
            0 <= j < known.len() && list[i] == ((#[trigger] known[j]).0, ordered(known[j].1));
        lemma_known_server(ids, workspace, output_dir, j);
        lemma_filesystem_described(known[j].0, workspace);
        lemma_plain_described(known[j].0, playwright_args(output_dir));
        lemma_plain_described(known[j].0, seq!["-y"@, "@upstash/context7-mcp"@]);
    }
    lemma_all_tested(list);
    let servers = tested(list);
    lemma_trim_of_fixed(seq![], CharClass::White);
    assert forall|i: int| 0 <= i < servers.len() implies {
        &&& ids.contains((#[trigger] servers[i]).id)
        &&& preset_server(servers[i].id, workspace, output_dir) is Some
        &&& servers[i].command == "npx"@
        &&& verdict(servers[i], true, seq![]).ok
        &&& !verdict(servers[i], false, seq![]).ok
    } by {
        assert(needs_only_npx(list[i].0, list[i].1));
        assert(servers[i].open_env =~= seq![]);
        assert(servers[i].url =~= seq![]);
        assert(unset(servers[i].open_env, seq![]) =~= seq![]);
    }
    assert forall|id: Seq<char>|
        #![trigger ids.contains(id)]
        ids.contains(id) && preset_server(id, workspace, output_dir) is Some implies exists|i: int|
        0 <= i < servers.len() && (#[trigger] servers[i]).id == id by {
        lemma_known_has(ids, workspace, output_dir, id);
        lemma_ordered_keys(known, id);
        let i = choose|i: int| 0 <= i < list.len() && (#[trigger] list[i]).0 == id;
        assert(servers[i].id == id);
    }
}

/// A server is tested unless it is switched off, in either of two ways; the servers are
/// tested in their order.
pub proof fn law_servers_are_tested_unless_switched_off(
    a: Seq<(Seq<char>, JsonTree)>,
    b: Seq<(Seq<char>, JsonTree)>,
    id: Seq<char>,
    server: JsonTree,
)
    ensures
        tested(a + b) == tested(a) + tested(b),
        server.field("disabled"@) == Some(JsonTree::Bool(true)) || server.field("enabled"@) == Some(
            JsonTree::Bool(false),
        ) ==> tested(seq![(id, server)]).len() == 0,
        server.field("disabled"@) != Some(JsonTree::Bool(true)) && server.field("enabled"@) != Some(
            JsonTree::Bool(false),
        ) ==> tested(seq![(id, server)]) == seq![described(id, server)],
    decreases b.len(),
{
    let one = seq![(id, server)];
    assert(one.drop_last() =~= seq![]);
    assert(tested(one.drop_last()) =~= seq![]);
    assert(seq![].push(described(id, server)) =~= seq![described(id, server)]);
    if b.len() == 0 {
        assert(a + b =~= a);
        assert(tested(b) =~= seq![]);
    } else {
        law_servers_are_tested_unless_switched_off(a, b.drop_last(), id, server);
        assert((a + b).drop_last() =~= a + b.drop_last());
        assert(tested(a + b) =~= tested(a) + tested(b));
    }
}

/// A server is described by its command, its address and the texts among its arguments,
/// where they are there, and by the names in its environment that have no value.
pub proof fn law_servers_are_described_by_their_fields(id: Seq<char>, server: JsonTree)
    ensures
        ({
            let r = described(id, server);
            &&& r.id == id
            &&& match server.field("command"@) {
                Some(JsonTree::Text(s)) => r.command == s,
                _ => r.command.len() == 0,
            }
            &&& match server.field("url"@) {
                Some(JsonTree::Text(s)) => r.url == s,
                _ => r.url.len() == 0,
            }
            &&& match server.field("args"@) {
                Some(JsonTree::List(items)) => r.args == text_items(items),
                _ => r.args.len() == 0,
            }
            &&& match server.field("env"@) {
                Some(JsonTree::Object(env)) => r.open_env == open_keys(env),
                _ => r.open_env.len() == 0,
            }
        }),
{
}

/// A name in the environment is open where its value is blank or no text; the open names
/// keep their order.
pub proof fn law_names_without_a_value_are_open(
    a: Seq<(Seq<char>, JsonTree)>,
    b: Seq<(Seq<char>, JsonTree)>,
    key: Seq<char>,
    value: JsonTree,
)
    ensures
        open_keys(a + b) == open_keys(a) + open_keys(b),
        match value {
            JsonTree::Text(s) => if trimmed(s).len() == 0 {
                open_keys(seq![(key, value)]) == seq![key]
            } else {
                open_keys(seq![(key, value)]).len() == 0
            },
            _ => open_keys(seq![(key, value)]) == seq![key],
        },
    decreases b.len(),
{
    let one = seq![(key, value)];
    assert(one.drop_last() =~= seq![]);
    assert(open_keys(one.drop_last()) =~= seq![]);
    assert(seq![].push(key) =~= seq![key]);
    if b.len() == 0 {
        assert(a + b =~= a);
        assert(open_keys(b) =~= seq![]);
    } else {
        law_names_without_a_value_are_open(a, b.drop_last(), key, value);
        assert((a + b).drop_last() =~= a + b.drop_last());
        assert(open_keys(a + b) =~= open_keys(a) + open_keys(b));
    }
}

/// A name is missing exactly where it is not set, and the missing ones keep their order.
pub proof fn law_names_that_are_not_set_are_missing(
    a: Seq<Seq<char>>,
    a_set: Seq<bool>,
    b: Seq<Seq<char>>,
    b_set: Seq<bool>,
    key: Seq<char>,
)
    requires
        a_set.len() == a.len(),
    ensures
        unset(a + b, a_set + b_set) == unset(a, a_set) + unset(b, b_set),
        unset(seq![key], seq![true]).len() == 0,
        unset(seq![key], seq![false]) == seq![key],
        unset(seq![key], seq![]) == seq![key],
    decreases b.len(),
{
    let one = seq![key];
    assert(one.drop_last() =~= seq![]);
    assert(unset(one.drop_last(), seq![true]) =~= seq![]);
    assert(unset(one.drop_last(), seq![false]) =~= seq![]);
    assert(unset(one.drop_last(), seq![]) =~= seq![]);
    assert(seq![].push(key) =~= seq![key]);
    if b.len() == 0 {
        assert(a + b =~= a);
        assert(unset(b, b_set) =~= seq![]);
        lemma_unset_front(a, a_set, b_set);
    } else {
        law_names_that_are_not_set_are_missing(a, a_set, b.drop_last(), b_set, key);
        assert((a + b).drop_last() =~= a + b.drop_last());
        assert(unset(a + b, a_set + b_set) =~= unset(a, a_set) + unset(b, b_set));
    }
}

/// What is set beyond the names makes no difference.
proof fn lemma_unset_front(keys: Seq<Seq<char>>, set: Seq<bool>, more: Seq<bool>)
    requires
        keys.len() <= set.len(),
    ensures
        unset(keys, set + more) == unset(keys, set),
    decreases keys.len(),
{
    if keys.len() > 0 {
        lemma_unset_front(keys.drop_last(), set, more);
    }
}

/// A server is in order exactly where its command is found, or it has an address, and no
/// name in its environment is missing. Otherwise the warnings say what is wrong, and the
/// error is made of them; without one there is none.
pub proof fn law_verdicts_say_what_is_wrong(
    server: ServerView,
    command_exists: bool,
    env_set: Seq<bool>,
)
    ensures
        ({
            let r = verdict(server, command_exists, env_set);
            let missing = unset(server.open_env, env_set);
            let found = command_exists || trimmed(server.url).len() > 0;
            &&& r.id == server.id && r.command == server.command && r.args == server.args && r.url
                == server.url
            &&& r.command_found == found
            &&& r.missing_env == missing
            &&& r.ok == (found && missing.len() == 0)
            &&& r.ok == (r.warnings.len() == 0)
            &&& r.ok ==> r.error.len() == 0
            &&& !found ==> r.warnings[0] == "Command not found: "@ + server.command
            &&& missing.len() > 0 ==> r.warnings.last() == "Missing environment variables: "@
                + joined(missing, ", "@)
            &&& !found && missing.len() == 0 ==> r.warnings.len() == 1 && r.error == r.warnings[0]
            &&& found && missing.len() > 0 ==> r.warnings.len() == 1 && r.error == r.warnings[0]
            &&& !found && missing.len() > 0 ==> r.warnings.len() == 2 && r.error == r.warnings[0]
                + "; "@ + r.warnings[1]
        }),
{
    let r = verdict(server, command_exists, env_set);
    if r.warnings.len() == 2 {
        assert(r.warnings.drop_last().len() == 1);
        assert(joined(r.warnings.drop_last(), "; "@) == r.warnings[0]);
    }
}

/// A command is looked for under its own name; on Windows also with each of the usual
/// endings, unless it has one.
pub proof fn law_commands_are_looked_for_by_name(command: Seq<char>, windows: bool)
    ensures
        command_names(command, windows)[0] == command,
        !windows || ends(command, ".exe"@) || ends(command, ".cmd"@) ==> command_names(
            command,
            windows,
        ).len() == 1,
        windows && !ends(command, ".exe"@) && !ends(command, ".cmd"@) ==> {
            let names = command_names(command, windows);
            &&& names.len() == 3
            &&& names[1] == command + ".cmd"@
            &&& names[2] == command + ".exe"@
        },
{
}

/// The servers of a configuration are the fields of its object of servers.
pub proof fn law_configs_without_servers_have_none(config: JsonTree)
    ensures
        match config.field("servers"@) {
            Some(JsonTree::Object(servers)) => config_servers(config) == servers,
            _ => config_servers(config).len() == 0,
        },
{
}

/// Each server is judged by its own probe, and all is well exactly where every server is.
pub proof fn law_servers_are_judged_one_by_one(
    servers: Seq<ServerView>,
    probes: Seq<McpProbe>,
    i: int,
)
    requires
        0 <= i < servers.len(),
    ensures
        ({
            let judged = verdicts(servers, probes);
            let mine = verdict(servers[i], probes[i].command_exists, probes[i].env_set@);
            &&& judged.len() == servers.len()
            &&& judged[i] == mine
            &&& !mine.ok ==> !all_ok(judged)
            &&& all_ok(judged) ==> mine.ok
        }),
        (forall|k: int| 0 <= k < servers.len() ==> (#[trigger] verdicts(servers, probes)[k]).ok)
            ==> all_ok(verdicts(servers, probes)),
        all_ok(seq![]),
{
    let judged = verdicts(servers, probes);
    assert(judged[i] == verdict(servers[i], probes[i].command_exists, probes[i].env_set@));
}

/// A configuration that cannot be used is one failed entry with what is wrong with it.
pub proof fn law_unusable_configs_are_one_failure(warning: Seq<char>, error: Seq<char>)
    ensures
        ({
            let r = config_status(warning, error);
            &&& !r.ok && !r.command_found
            &&& r.id == "config"@
            &&& r.error == error
            &&& r.warnings.len() == 1 && r.warnings[0] == warning
            &&& r.command.len() == 0 && r.args.len() == 0 && r.url.len() == 0
            &&& r.missing_env.len() == 0
        }),
{
}

} // verus!
