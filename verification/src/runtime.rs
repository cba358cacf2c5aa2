//! The program that runs, and the editors that open a workspace.

use vstd::prelude::*;
use std::path::PathBuf;
use crate::clock::{is_utc_time, utc_now};
use crate::json::{
    field_trees, law_the_first_field_is_found, lemma_field_trees_push, lemma_tree, Json, JsonTree,
};
use crate::paths::{given, law_names_stand_under_their_directory, FilePath, PathView};
use crate::search::{ends, starts};
use crate::settings::Settings;
use crate::text::{same, views};

verus! {

/// The place of the program that comes along, under a directory.
pub open spec fn bundled_place(dir: PathBuf, name: Seq<char>) -> PathView {
    given(dir).with("node_modules"@).with("deepseek-tui"@).with("bin"@).with("downloads"@).with(
        name,
    )
}

/// The place of the program that comes along, under the directory that the sources are
/// in.
pub fn bundled_beside_sources(dir: PathBuf) -> (r: FilePath)
    ensures
        r@ == bundled_place(dir, "deepseek.exe"@),
{
    FilePath::given(dir).with("node_modules").with("deepseek-tui").with("bin").with(
        "downloads",
    ).with("deepseek.exe")
}

/// The place of the program that comes along, under a directory above this program.
pub fn bundled_above(dir: PathBuf, windows: bool) -> (r: FilePath)
    ensures
        r@ == bundled_place(
            dir,
            if windows {
                "deepseek.exe"@
            } else {
                "deepseek"@
            },
        ),
{
    let name = if windows {
        "deepseek.exe"
    } else {
        "deepseek"
    };
    FilePath::given(dir).with("node_modules").with("deepseek-tui").with("bin").with(
        "downloads",
    ).with(name)
}

/// The program that comes along: the first of its places where it is, in the order in
/// which they are looked at; else its name alone. `found` holds of each place its path,
/// if the program is there.
pub open spec fn bundled_binary(found: Seq<Option<Seq<char>>>) -> Seq<char>
    decreases found.len(),
{
    if found.len() == 0 {
        "deepseek"@
    } else {
        match found[0] {
            Some(path) => path,
            None => bundled_binary(found.drop_first()),
        }
    }
}

/// The views of a list of paths that may be missing.
pub open spec fn found_views(found: Seq<Option<String>>) -> Seq<Option<Seq<char>>> {
    found.map_values(
        |o: Option<String>|
            match o {
                Some(path) => Some(path@),
                None => None,
            },
    )
}

/// The program that comes along.
pub fn get_bundled_binary_path(found: &Vec<Option<String>>) -> (r: String)
    ensures
        r@ == bundled_binary(found_views(found@)),
{
    let ghost all = found_views(found@);
    let mut i: usize = 0;
    assert(all.skip(0) =~= all);
    while i < found.len()
        invariant
            i <= found@.len(),
            all == found_views(found@),
            bundled_binary(all) == bundled_binary(all.skip(i as int)),
        decreases found@.len() - i,
    {
        let ghost rest = all.skip(i as int);
        assert(rest[0] == all[i as int]);
        assert(rest.drop_first() =~= all.skip(i + 1));
        if let Some(path) = &found[i] {
            return path.clone();
        }
        i = i + 1;
    }
    "deepseek".to_string()
}

/// What is known of the program.
pub struct RuntimeCheck {
    pub selected: String,
    pub selected_exists: bool,
    pub bundled: String,
    pub bundled_exists: bool,
    pub system: String,
    pub system_exists: bool,
    pub version: String,
}

/// The program that the settings choose.
pub open spec fn selected_program(mode: Seq<char>, custom: Seq<char>) -> Seq<char> {
    if mode == "custom"@ {
        custom
    } else {
        "deepseek"@
    }
}

/// What is known of the program. `system_exists` tells whether the one of the system
/// could be started.
pub fn check_runtime(settings: &Settings, system_exists: bool) -> (r: RuntimeCheck)
    ensures
        r.selected@ == if settings.binary_mode@ == "custom"@ {
            settings.custom_binary_path@
        } else {
            "deepseek"@
        },
        r.selected@ == selected_program(settings.binary_mode@, settings.custom_binary_path@),
        r.selected_exists,
        r.bundled@.len() == 0,
        !r.bundled_exists,
        r.system@ == "deepseek"@,
        r.system_exists == system_exists,
        r.version@.len() == 0,
{
    RuntimeCheck {
        selected: if same(settings.binary_mode.as_str(), "custom") {
            settings.custom_binary_path.clone()
        } else {
            "deepseek".to_string()
        },
        selected_exists: true,
        bundled: String::new(),
        bundled_exists: false,
        system: "deepseek".to_string(),
        system_exists,
        version: String::new(),
    }
}

/// What runs at the moment.
pub struct RuntimeSnapshot {
    pub status: String,
    pub source: String,
    pub session_id: String,
    pub mode: String,
    pub workspace_path: String,
    pub pid: u32,
    pub command: String,
    pub args: Vec<String>,
    pub started_at: String,
    pub updated_at: String,
    pub last_exit: Option<Json>,
    pub agents: Vec<Json>,
    pub counts: Json,
    pub events: Vec<Json>,
}

/// How many agents there are, when there are none.
pub open spec fn no_counts() -> Seq<(Seq<char>, JsonTree)> {
    seq![
        ("total"@, JsonTree::Int(0)),
        ("running"@, JsonTree::Int(0)),
        ("completed"@, JsonTree::Int(0)),
        ("failed"@, JsonTree::Int(0)),
        ("cancelled"@, JsonTree::Int(0)),
    ]
}

/// Nothing runs.
pub open spec fn is_idle(s: RuntimeSnapshot) -> bool {
    &&& s.status@ == "idle"@
    &&& s.source@ == "none"@
    &&& s.session_id@.len() == 0
    &&& s.mode@.len() == 0
    &&& s.workspace_path@.len() == 0
    &&& s.pid == 0
    &&& s.command@.len() == 0
    &&& s.args@.len() == 0
    &&& s.started_at@.len() == 0
    &&& s.last_exit is None
    &&& s.agents@.len() == 0
    &&& s.counts@ == JsonTree::Object(no_counts())
    &&& s.events@.len() == 0
}

/// What runs at the moment: nothing, as of a time.
pub fn idle_snapshot(updated_at: String) -> (r: RuntimeSnapshot)
    ensures
        is_idle(r),
        r.updated_at == updated_at,
{
    broadcast use lemma_tree, lemma_field_trees_push;

    let mut counts: Vec<(String, Json)> = Vec::new();
    counts.push(("total".to_string(), Json::Int(0)));
    counts.push(("running".to_string(), Json::Int(0)));
    counts.push(("completed".to_string(), Json::Int(0)));
    counts.push(("failed".to_string(), Json::Int(0)));
    counts.push(("cancelled".to_string(), Json::Int(0)));
    assert(field_trees(counts@) =~= no_counts());
    RuntimeSnapshot {
        status: "idle".to_string(),
        source: "none".to_string(),
        session_id: String::new(),
        mode: String::new(),
        workspace_path: String::new(),
        pid: 0,
        command: String::new(),
        args: Vec::new(),
        started_at: String::new(),
        updated_at,
        last_exit: None,
        agents: Vec::new(),
        counts: Json::Object(counts),
        events: Vec::new(),
    }
}

/// What runs at the moment: nothing, as of now.
pub fn get_runtime_snapshot() -> (r: RuntimeSnapshot)
    ensures
        is_idle(r),
        is_utc_time(r.updated_at@),
{
    idle_snapshot(utc_now())
}

/// What came of opening an editor.
pub struct EditorOpenResult {
    pub ok: bool,
    pub error: String,
    pub editor: Option<String>,
    pub path: Option<String>,
    pub command: Option<String>,
}

/// The commands that may open an editor, in the order in which they are tried; none for
/// an editor that is not known.
pub open spec fn editor_names(editor: Seq<char>, windows: bool) -> Option<Seq<Seq<char>>> {
    if editor == "cursor"@ {
        Some(
            if windows {
                seq!["cursor.cmd"@, "code"@]
            } else {
                seq!["cursor"@]
            },
        )
    } else if editor == "vscode"@ {
        Some(
            if windows {
                seq!["code.cmd"@, "code"@]
            } else {
                seq!["code"@]
            },
        )
    } else {
        None
    }
}

/// The commands that may open an editor.
pub fn editor_commands(editor: &str, windows: bool) -> (r: Option<Vec<String>>)
    ensures
        match r {
            Some(list) => editor_names(editor@, windows) == Some(views(list@)),
            None => editor_names(editor@, windows) is None,
        },
{
    let mut list: Vec<String> = Vec::new();
    if same(editor, "cursor") {
        if windows {
            list.push("cursor.cmd".to_string());
            list.push("code".to_string());
            assert(views(list@) =~= seq!["cursor.cmd"@, "code"@]);
        } else {
            list.push("cursor".to_string());
            assert(views(list@) =~= seq!["cursor"@]);
        }
        Some(list)
    } else if same(editor, "vscode") {
        if windows {
            list.push("code.cmd".to_string());
            list.push("code".to_string());
            assert(views(list@) =~= seq!["code.cmd"@, "code"@]);
        } else {
            list.push("code".to_string());
            assert(views(list@) =~= seq!["code"@]);
        }
        Some(list)
    } else {
        None
    }
}

/// How the attempts to open an editor ended.
pub enum EditorOutcome {
    /// The editor is not known.
    Unsupported,
    /// A command succeeded.
    Opened(String),
    /// No command succeeded.
    Unavailable,
}

/// The first command that succeeded. Of a command that was not run nothing is known.
pub open spec fn opened_by(names: Seq<Seq<char>>, succeeded: Seq<bool>) -> Option<Seq<char>>
    decreases names.len(),
{
    if names.len() == 0 || succeeded.len() == 0 {
        None
    } else if succeeded[0] {
        Some(names[0])
    } else {
        opened_by(names.drop_first(), succeeded.drop_first())
    }
}

/// How the attempts to open an editor ended. `succeeded` tells of each command that was
/// run, in their order, whether it succeeded.
pub fn editor_outcome(editor: &str, windows: bool, succeeded: &Vec<bool>) -> (r: EditorOutcome)
    ensures
        match (r, editor_names(editor@, windows)) {
            (EditorOutcome::Unsupported, None) => true,
            (EditorOutcome::Opened(command), Some(names)) => opened_by(names, succeeded@) == Some(
                command@,
            ),
            (EditorOutcome::Unavailable, Some(names)) => opened_by(names, succeeded@) is None,
            _ => false,
        },
{
    let commands = match editor_commands(editor, windows) {
        Some(list) => list,
        None => return EditorOutcome::Unsupported,
    };
    let ghost names = views(commands@);
    let mut i: usize = 0;
    assert(names.skip(0) =~= names);
    assert(succeeded@.skip(0) =~= succeeded@);
    while i < commands.len() && i < succeeded.len()
        invariant
            i <= commands@.len(),
            i <= succeeded@.len(),
            names == views(commands@),
            editor_names(editor@, windows) == Some(names),
            opened_by(names, succeeded@) == opened_by(
                names.skip(i as int),
                succeeded@.skip(i as int),
            ),
        decreases commands@.len() - i,
    {
        assert(names.skip(i as int)[0] == commands@[i as int]@);
        assert(succeeded@.skip(i as int)[0] == succeeded@[i as int]);
        if succeeded[i] {
            return EditorOutcome::Opened(commands[i].clone());
        }
        assert(names.skip(i as int).drop_first() =~= names.skip(i + 1));
        assert(succeeded@.skip(i as int).drop_first() =~= succeeded@.skip(i + 1));
        i = i + 1;
    }
    EditorOutcome::Unavailable
}

/// The answer says that the editor was opened by a command, or why it was not.
pub open spec fn is_editor_answer(
    r: EditorOpenResult,
    editor: Seq<char>,
    path: Seq<char>,
    outcome: EditorOutcome,
) -> bool {
    match outcome {
        EditorOutcome::Opened(command) => {
            &&& r.ok
            &&& r.error@.len() == 0
            &&& r.editor matches Some(e) && e@ == editor
            &&& r.path matches Some(p) && p@ == path
            &&& r.command matches Some(c) && c@ == command@ + " "@ + path
        },
        EditorOutcome::Unsupported => {
            &&& !r.ok
            &&& r.error@ == "Unsupported editor"@
            &&& r.editor is None
            &&& r.path is None
            &&& r.command is None
        },
        EditorOutcome::Unavailable => {
            &&& !r.ok
            &&& r.error@ == editor + " command is not available"@
            &&& r.editor is None
            &&& r.path is None
            &&& r.command is None
        },
    }
}

/// The answer to a request to open an editor, by how the attempts ended.
pub fn answer_editor(editor: &str, workspace_path: &str, outcome: &EditorOutcome) -> (r:
    EditorOpenResult)
    ensures
        is_editor_answer(r, editor@, workspace_path@, *outcome),
{
    match outcome {
        EditorOutcome::Opened(command) => {
            let mut line = command.clone();
            line.append(" ");
            line.append(workspace_path);
            EditorOpenResult {
                ok: true,
                error: String::new(),
                editor: Some(editor.to_string()),
                path: Some(workspace_path.to_string()),
                command: Some(line),
            }
        },
        EditorOutcome::Unsupported => EditorOpenResult {
            ok: false,
            error: "Unsupported editor".to_string(),
            editor: None,
            path: None,
            command: None,
        },
        EditorOutcome::Unavailable => {
            let mut error = editor.to_string();
            error.append(" command is not available");
            EditorOpenResult { ok: false, error, editor: None, path: None, command: None }
        },
    }
}

/// The answer to a request to open an editor. `succeeded` tells of each command that was
/// run, in their order, whether it succeeded: an editor that is not known is refused, and
/// the first command that succeeded is the one that is told.
pub fn open_workspace_editor(
    editor: &str,
    workspace_path: &str,
    windows: bool,
    succeeded: &Vec<bool>,
) -> (r: EditorOpenResult)
    ensures
        match editor_names(editor@, windows) {
            None => is_editor_answer(r, editor@, workspace_path@, EditorOutcome::Unsupported),
            Some(names) => match opened_by(names, succeeded@) {
                Some(name) => {
                    &&& r.ok
                    &&& r.error@.len() == 0
                    &&& r.editor matches Some(e) && e@ == editor@
                    &&& r.path matches Some(p) && p@ == workspace_path@
                    &&& r.command matches Some(c) && c@ == name + " "@ + workspace_path@
                },
                None => is_editor_answer(r, editor@, workspace_path@, EditorOutcome::Unavailable),
            },
        },
{
    let outcome = editor_outcome(editor, windows, succeeded);
    answer_editor(editor, workspace_path, &outcome)
}

/// The program is the first one that is found, and else the one that the system finds by
/// its name.
pub proof fn law_the_first_program_found_is_taken(
    before: Seq<Option<Seq<char>>>,
    path: Seq<char>,
    rest: Seq<Option<Seq<char>>>,
)
    requires
        forall|i: int| 0 <= i < before.len() ==> (#[trigger] before[i]) is None,
    ensures
        bundled_binary(before + seq![Some(path)] + rest) == path,
        bundled_binary(before) == "deepseek"@,
    decreases before.len(),
{
    let all = before + seq![Some(path)] + rest;
    if before.len() > 0 {
        let fewer = before.drop_first();
        assert(forall|i: int| 0 <= i < fewer.len() ==> #[trigger] fewer[i] == before[i + 1]);
        law_the_first_program_found_is_taken(fewer, path, rest);
        assert(all.drop_first() =~= fewer + seq![Some(path)] + rest);
        assert(all[0] == before[0]);
    } else {
        assert(all[0] == Some(path));
    }
}

/// There are two editors. Each is tried by its own command, and on Windows then by the
/// common one.
pub proof fn law_editors_have_their_commands(editor: Seq<char>, windows: bool)
    ensures
        editor_names(editor, windows) is Some == (editor == "cursor"@ || editor == "vscode"@),
        editor_names(editor, windows) matches Some(names) ==> {
            &&& names.len() == (if windows {
                2int
            } else {
                1
            })
            &&& editor == "cursor"@ && windows ==> names[0] == "cursor.cmd"@
            &&& editor == "cursor"@ && !windows ==> names[0] == "cursor"@
            &&& editor == "vscode"@ && windows ==> names[0] == "code.cmd"@
            &&& editor == "vscode"@ && !windows ==> names[0] == "code"@
            &&& windows ==> names[1] == "code"@
        },
{
    reveal_strlit("cursor");
    reveal_strlit("vscode");
    assert("cursor"@[0] == 'c' && "vscode"@[0] == 'v');
}

/// The editor is opened by the first command that succeeds; where none does it is not
/// opened.
pub proof fn law_the_first_command_that_succeeds_opens(
    names: Seq<Seq<char>>,
    succeeded: Seq<bool>,
    k: int,
)
    requires
        succeeded.len() == names.len(),
    ensures
        0 <= k < names.len() && succeeded[k] && (forall|j: int|
            0 <= j < k ==> !#[trigger] succeeded[j]) ==> opened_by(names, succeeded) == Some(
            names[k],
        ),
        (forall|j: int| 0 <= j < names.len() ==> !#[trigger] succeeded[j]) ==> opened_by(
            names,
            succeeded,
        ) is None,
    decreases names.len(),
{
    if names.len() > 0 {
        let rest = succeeded.drop_first();
        law_the_first_command_that_succeeds_opens(names.drop_first(), rest, k - 1);
        assert(forall|j: int| 0 <= j < rest.len() ==> #[trigger] rest[j] == succeeded[j + 1]);
    }
}

/// An answer is good exactly where the editor was opened: then it says by which command and
/// on what; otherwise it says why not, and nothing else.
pub proof fn law_answers_say_how_the_editor_was_opened(
    r: EditorOpenResult,
    editor: Seq<char>,
    path: Seq<char>,
    outcome: EditorOutcome,
)
    requires
        is_editor_answer(r, editor, path, outcome),
    ensures
        r.ok == outcome is Opened,
        r.ok == (r.error@.len() == 0),
        r.command is Some == r.ok && r.path is Some == r.ok && r.editor is Some == r.ok,
        outcome matches EditorOutcome::Opened(command) ==> {
            &&& starts(r.command->0@, command@)
            &&& ends(r.command->0@, " "@ + path)
            &&& r.path->0@ == path
            &&& r.editor->0@ == editor
        },
        outcome is Unavailable ==> starts(r.error@, editor),
        outcome is Unsupported ==> r.error@ == "Unsupported editor"@,
{
    reveal_strlit("Unsupported editor");
    reveal_strlit(" command is not available");
    if let EditorOutcome::Opened(command) = outcome {
        let said = r.command->0@;
        let tail = " "@ + path;
        assert(said == command@ + " "@ + path);
        assert(said.subrange(0, command@.len() as int) =~= command@);
        assert(said.subrange(said.len() - tail.len(), said.len() as int) =~= tail);
    }
    if outcome is Unavailable {
        assert(r.error@.subrange(0, editor.len() as int) =~= editor);
    }
}

/// The program that comes with this one lies deep in its package's directory, under its
/// name.
pub proof fn law_the_program_lies_in_its_package(dir: PathBuf, name: Seq<char>)
    ensures
        ({
            let place = bundled_place(dir, name);
            &&& place.base == given(dir).base
            &&& place.name() == name
            &&& place.directory().name() == "downloads"@
            &&& place.directory().directory().name() == "bin"@
            &&& place.directory().directory().directory().name() == "deepseek-tui"@
            &&& place.directory().directory().directory().directory() == given(dir).with(
                "node_modules"@,
            )
        }),
{
    let a = given(dir).with("node_modules"@);
    law_names_stand_under_their_directory(a, "deepseek-tui"@);
    let b = a.with("deepseek-tui"@);
    law_names_stand_under_their_directory(b, "bin"@);
    let c = b.with("bin"@);
    law_names_stand_under_their_directory(c, "downloads"@);
    law_names_stand_under_their_directory(c.with("downloads"@), name);
}

/// Where nothing runs there is no session, no program and no event, and every count is
/// zero.
pub proof fn law_nothing_is_counted_where_nothing_runs(s: RuntimeSnapshot)
    requires
        is_idle(s),
    ensures
        s.status@ == "idle"@ && s.source@ == "none"@,
        s.session_id@.len() == 0 && s.command@.len() == 0 && s.args@.len() == 0 && s.pid == 0,
        s.mode@.len() == 0 && s.workspace_path@.len() == 0 && s.started_at@.len() == 0,
        s.agents@.len() == 0 && s.events@.len() == 0 && s.last_exit is None,
        s.counts@.int_at("total"@) == Some(0int),
        s.counts@.int_at("running"@) == Some(0int),
        s.counts@.int_at("completed"@) == Some(0int),
        s.counts@.int_at("failed"@) == Some(0int),
        s.counts@.int_at("cancelled"@) == Some(0int),
{
    reveal_strlit("total");
    reveal_strlit("running");
    reveal_strlit("completed");
    reveal_strlit("failed");
    reveal_strlit("cancelled");
    assert("total"@.len() == 5 && "running"@.len() == 7 && "completed"@.len() == 9
        && "failed"@.len() == 6 && "cancelled"@.len() == 9);
    assert("completed"@[1] == 'o' && "cancelled"@[1] == 'a');
    law_the_first_field_is_found(no_counts(), "total"@, 0);
    law_the_first_field_is_found(no_counts(), "running"@, 1);
    law_the_first_field_is_found(no_counts(), "completed"@, 2);
    law_the_first_field_is_found(no_counts(), "failed"@, 3);
    law_the_first_field_is_found(no_counts(), "cancelled"@, 4);
}

/// The user's program is selected where the settings say so, and the system's otherwise.
pub proof fn law_programs_are_selected_by_the_settings(mode: Seq<char>, custom: Seq<char>)
    ensures
        mode == "custom"@ ==> selected_program(mode, custom) == custom,
        mode != "custom"@ ==> selected_program(mode, custom) == "deepseek"@,
{
}

} // verus!
