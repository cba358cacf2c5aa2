//! Where files and directories lie.
//!
//! A path is a base and the names under it. The base is a path that the system
//! gave, kept as it is, or a text; the program puts the names behind it with the
//! separator of the platform.

use vstd::prelude::*;
use std::path::PathBuf;
use crate::text::{lemma_views_push, trim_str, trimmed, views};

verus! {

/// A path of the platform.
#[verifier::external_type_specification]
#[verifier::external_body]
pub struct ExPathBuf(std::path::PathBuf);

/// What a path begins with.
pub enum PathBase {
    Given(PathBuf),
    Text(String),
}

/// A base and the names under it, from the outside in.
pub struct FilePath {
    pub base: PathBase,
    pub parts: Vec<String>,
}

/// What a path begins with.
pub enum BaseView {
    Given(PathBuf),
    Text(Seq<char>),
}

/// A base and the names under it.
#[verifier::ext_equal]
pub struct PathView {
    pub base: BaseView,
    pub parts: Seq<Seq<char>>,
}

impl View for PathBase {
    type V = BaseView;

    open spec fn view(&self) -> BaseView {
        match *self {
            PathBase::Given(path) => BaseView::Given(path),
            PathBase::Text(text) => BaseView::Text(text@),
        }
    }
}

impl View for FilePath {
    type V = PathView;

    open spec fn view(&self) -> PathView {
        PathView { base: self.base@, parts: views(self.parts@) }
    }
}

impl PathView {
    /// The path of something in this directory.
    pub open spec fn with(self, name: Seq<char>) -> PathView {
        PathView { base: self.base, parts: self.parts.push(name) }
    }

    /// The directory that holds the last name.
    pub open spec fn directory(self) -> PathView {
        PathView { base: self.base, parts: self.parts.drop_last() }
    }

    /// The last name.
    pub open spec fn name(self) -> Seq<char> {
        self.parts.last()
    }
}

/// A path that the system gave.
pub open spec fn given(path: PathBuf) -> PathView {
    PathView { base: BaseView::Given(path), parts: seq![] }
}

/// A path by its text.
pub open spec fn by_text(text: Seq<char>) -> PathView {
    PathView { base: BaseView::Text(text), parts: seq![] }
}

impl FilePath {
    /// A path that the system gave.
    pub fn given(path: PathBuf) -> (r: FilePath)
        ensures
            r@ == given(path),
    {
        let r = FilePath { base: PathBase::Given(path), parts: Vec::new() };
        assert(r@ =~= given(path));
        r
    }

    /// A path by its text.
    pub fn by_text(text: &str) -> (r: FilePath)
        ensures
            r@ == by_text(text@),
    {
        let r = FilePath { base: PathBase::Text(text.to_string()), parts: Vec::new() };
        assert(r@ =~= by_text(text@));
        r
    }

    /// The path of something in this directory.
    pub fn with(self, name: &str) -> (r: FilePath)
        ensures
            r@ == self@.with(name@),
    {
        broadcast use lemma_views_push;

        let FilePath { base, mut parts } = self;
        parts.push(name.to_string());
        FilePath { base, parts }
    }
}

/// What `Path::to_string_lossy` makes of a path.
pub uninterp spec fn path_chars(path: PathBuf) -> Seq<char>;

/// `Path::to_string_lossy`. The text depends on the path alone and has the name
/// `path_chars`; how the path is written is left to the platform.
#[verifier::external_body]
pub(crate) fn path_text(path: &PathBuf) -> (r: String)
    ensures
        r@ == path_chars(*path),
{
    path.to_string_lossy().to_string()
}

/// `dirs::home_dir` gives the user's home directory, where there is one. Which it
/// is depends on the machine.
pub assume_specification[ dirs::home_dir ]() -> Option<PathBuf>;

/// `dirs::data_dir` gives the directory for the user's data, where there is one.
/// Which it is depends on the machine.
pub assume_specification[ dirs::data_dir ]() -> Option<PathBuf>;

/// `dirs::desktop_dir` gives the user's desktop directory, where there is one.
/// Which it is depends on the machine.
pub assume_specification[ dirs::desktop_dir ]() -> Option<PathBuf>;

/// The data directory: the configured one as it is, else a directory of this
/// program in the one that the system has for data.
pub open spec fn data_dir(configured: Option<PathBuf>, system: Option<PathBuf>) -> PathView {
    match configured {
        Some(dir) => given(dir),
        None => match system {
            Some(dir) => given(dir).with("ds-code"@),
            None => by_text("."@).with("ds-code"@),
        },
    }
}

/// The path is that of the data directory, whatever the system has for data.
pub open spec fn is_data_dir(path: PathView, configured: Option<PathBuf>) -> bool {
    exists|system: Option<PathBuf>| path == #[trigger] data_dir(configured, system)
}

/// The data directory, by what the system has for data.
pub fn choose_data_dir(configured: Option<PathBuf>, system: Option<PathBuf>) -> (r: FilePath)
    ensures
        r@ == data_dir(configured, system),
{
    match configured {
        Some(dir) => FilePath::given(dir),
        None => match system {
            Some(dir) => FilePath::given(dir).with("ds-code"),
            None => FilePath::by_text(".").with("ds-code"),
        },
    }
}

/// The data directory. `configured` is what the variable `DS_CODE_DATA_DIR` holds.
pub fn get_user_data_dir(configured: Option<PathBuf>) -> (r: FilePath)
    ensures
        is_data_dir(r@, configured),
        configured matches Some(dir) ==> r@ == given(dir),
{
    choose_data_dir(configured, dirs::data_dir())
}

/// The file with the settings.
pub fn get_settings_path(data_dir: FilePath) -> (r: FilePath)
    ensures
        r@ == data_dir@.with("settings.json"@),
{
    data_dir.with("settings.json")
}

/// The file with the keys.
pub fn get_secrets_path(data_dir: FilePath) -> (r: FilePath)
    ensures
        r@ == data_dir@.with("secrets.json"@),
{
    data_dir.with("secrets.json")
}

/// The directory with the skills.
pub fn get_skills_dir(data_dir: FilePath) -> (r: FilePath)
    ensures
        r@ == data_dir@.with("skills"@),
{
    data_dir.with("skills")
}

/// The directory with the logs.
pub fn get_log_dir(data_dir: FilePath) -> (r: FilePath)
    ensures
        r@ == data_dir@.with("logs"@),
{
    data_dir.with("logs")
}

/// The file with the scheduled tasks.
pub fn get_automations_path(data_dir: FilePath) -> (r: FilePath)
    ensures
        r@ == data_dir@.with("automations.json"@),
{
    data_dir.with("automations.json")
}

/// The file that a scheduled task writes its output to.
pub open spec fn task_log(data_dir: PathView, id: Seq<char>) -> PathView {
    data_dir.with("logs"@).with("task_"@ + id + ".log"@)
}

/// The file that a scheduled task writes its output to.
pub fn get_task_log(data_dir: FilePath, task_id: &str) -> (r: FilePath)
    ensures
        r@ == task_log(data_dir@, task_id@),
{
    let mut name = "task_".to_string();
    name.append(task_id);
    name.append(".log");
    data_dir.with("logs").with(name.as_str())
}

/// The directory that is configured for pictures and videos: that of the first
/// variable that is set, unless it is empty.
pub open spec fn screenshot_dir(screenshot: Option<PathBuf>, playwright: Option<PathBuf>) -> Option<
    PathBuf,
> {
    let first = if screenshot is Some {
        screenshot
    } else {
        playwright
    };
    match first {
        Some(path) => if path_chars(path).len() == 0 {
            None
        } else {
            Some(path)
        },
        None => None,
    }
}

/// The directory that is configured for pictures and videos. The arguments are what
/// the variables `DS_CODE_SCREENSHOT_DIR` and `DS_CODE_PLAYWRIGHT_OUTPUT_DIR` hold.
pub fn configured_screenshot_dir(
    screenshot: Option<PathBuf>,
    playwright: Option<PathBuf>,
) -> (r: Option<PathBuf>)
    ensures
        r == screenshot_dir(screenshot, playwright),
{
    let first = match screenshot {
        Some(path) => Some(path),
        None => playwright,
    };
    match first {
        Some(path) => if path_text(&path).as_str().is_empty() {
            None
        } else {
            Some(path)
        },
        None => None,
    }
}

/// Where pictures and videos go when nothing else is asked for.
pub open spec fn media_dir(configured: Option<PathBuf>, workspace: PathView) -> PathView {
    match configured {
        Some(path) => given(path),
        None => workspace.with(".ds-code"@).with("playwright-output"@),
    }
}

/// Where pictures and videos go when nothing else is asked for.
pub fn default_media_dir(configured: Option<PathBuf>, workspace: FilePath) -> (r: FilePath)
    ensures
        r@ == media_dir(configured, workspace@),
{
    match configured {
        Some(path) => FilePath::given(path),
        None => workspace.with(".ds-code").with("playwright-output"),
    }
}

/// The directory to work in: the one that is asked for if it is a directory, else
/// the home directory, the current one, or what the dot stands for.
pub open spec fn workspace_dir(
    asked: Seq<char>,
    is_dir: bool,
    home: Option<PathBuf>,
    current: Option<PathBuf>,
) -> PathView {
    if trimmed(asked).len() > 0 && is_dir {
        by_text(trimmed(asked))
    } else {
        match (home, current) {
            (Some(path), _) => given(path),
            (None, Some(path)) => given(path),
            (None, None) => by_text("."@),
        }
    }
}

/// The directory to work in, by what the system has for home.
pub fn choose_workspace_dir(
    workspace_path: &str,
    is_dir: bool,
    home: Option<PathBuf>,
    current: Option<PathBuf>,
) -> (r: FilePath)
    ensures
        r@ == workspace_dir(workspace_path@, is_dir, home, current),
{
    let asked = trim_str(workspace_path);
    if !asked.as_str().is_empty() && is_dir {
        return FilePath::by_text(asked.as_str());
    }
    match home {
        Some(path) => FilePath::given(path),
        None => match current {
            Some(path) => FilePath::given(path),
            None => FilePath::by_text("."),
        },
    }
}

/// The directory to work in. `is_dir` tells whether the path that is asked for,
/// without the white space around it, is a directory; `current` is the current one.
pub fn resolve_workspace_dir(
    workspace_path: &str,
    is_dir: bool,
    current: Option<PathBuf>,
) -> (r: FilePath)
    ensures
        exists|home: Option<PathBuf>|
            r@ == #[trigger] workspace_dir(workspace_path@, is_dir, home, current),
{
    choose_workspace_dir(workspace_path, is_dir, dirs::home_dir(), current)
}

/// The directory that tools work in: the workspace if one is asked for, else the current
/// directory if it is known.
pub open spec fn tool_dir(
    asked: Seq<char>,
    workspace: PathView,
    current: Option<PathBuf>,
) -> PathView {
    match current {
        Some(path) if trimmed(asked).len() == 0 => given(path),
        _ => workspace,
    }
}

/// The directory that tools work in.
pub fn choose_tool_dir(workspace_path: &str, workspace: FilePath, current: Option<PathBuf>) -> (r:
    FilePath)
    ensures
        r@ == tool_dir(workspace_path@, workspace@, current),
{
    if trim_str(workspace_path).as_str().is_empty() {
        if let Some(path) = current {
            return FilePath::given(path);
        }
    }
    workspace
}

/// The path as text, or nothing where there is none.
pub open spec fn chars_or_nothing(path: Option<PathBuf>) -> Seq<char> {
    match path {
        Some(p) => path_chars(p),
        None => seq![],
    }
}

/// The path as text, or nothing where there is none.
pub fn text_or_nothing(path: Option<PathBuf>) -> (r: String)
    ensures
        r@ == chars_or_nothing(path),
{
    match path {
        Some(p) => path_text(&p),
        None => String::new(),
    }
}

/// The directory that a scheduled task runs in: its own, else the desktop, the home
/// directory, or what the dot stands for.
pub open spec fn task_dir(
    workspace: Seq<char>,
    desktop: Option<PathBuf>,
    home: Option<PathBuf>,
) -> PathView {
    if trimmed(workspace).len() > 0 {
        by_text(workspace)
    } else {
        match (desktop, home) {
            (Some(path), _) => given(path),
            (None, Some(path)) => given(path),
            (None, None) => by_text("."@),
        }
    }
}

/// The directory that a scheduled task runs in, by what the system has.
pub fn choose_task_dir(workspace: &str, desktop: Option<PathBuf>, home: Option<PathBuf>) -> (r:
    FilePath)
    ensures
        r@ == task_dir(workspace@, desktop, home),
{
    if !trim_str(workspace).as_str().is_empty() {
        return FilePath::by_text(workspace);
    }
    match desktop {
        Some(path) => FilePath::given(path),
        None => match home {
            Some(path) => FilePath::given(path),
            None => FilePath::by_text("."),
        },
    }
}

/// The directory that a scheduled task runs in.
pub fn resolve_task_dir(workspace: &str) -> (r: FilePath)
    ensures
        exists|desktop: Option<PathBuf>, home: Option<PathBuf>|
            r@ == #[trigger] task_dir(workspace@, desktop, home),
{
    choose_task_dir(workspace, dirs::desktop_dir(), dirs::home_dir())
}

/// A path is that of its directory and its name.
pub proof fn law_names_stand_under_their_directory(path: PathView, name: Seq<char>)
    ensures
        path.with(name).directory() == path,
        path.with(name).name() == name,
        path.with(name).base == path.base,
        path.parts.len() > 0 ==> path.directory().with(path.name()) == path,
{
    assert(path.with(name).parts.drop_last() =~= path.parts);
    if path.parts.len() > 0 {
        assert(path.parts.drop_last().push(path.parts.last()) =~= path.parts);
    }
}

/// The data lies in the configured directory itself, and else under the program's name in
/// the system's directory for data.
pub proof fn law_data_lies_where_it_is_configured(dir: PathBuf, system: Option<PathBuf>)
    ensures
        data_dir(Some(dir), system) == given(dir),
        data_dir(None, Some(dir)) == given(dir).with("ds-code"@),
        data_dir(None, None) == by_text("."@).with("ds-code"@),
{
}

/// The log of a task is a file with the task's identifier in its name, among the logs;
/// different tasks have different logs.
pub proof fn law_tasks_have_logs_of_their_own(dir: PathView, a: Seq<char>, b: Seq<char>)
    ensures
        task_log(dir, a).directory() == dir.with("logs"@),
        task_log(dir, a).name() == "task_"@ + a + ".log"@,
        task_log(dir, a) == task_log(dir, b) ==> a == b,
{
    law_names_stand_under_their_directory(dir.with("logs"@), "task_"@ + a + ".log"@);
    if task_log(dir, a) == task_log(dir, b) {
        let x = "task_"@ + a + ".log"@;
        let y = "task_"@ + b + ".log"@;
        assert(task_log(dir, a).parts.last() == x);
        assert(task_log(dir, b).parts.last() == y);
        let n = "task_"@.len() as int;
        assert(x.subrange(n, n + a.len()) =~= a);
        assert(y.subrange(n, n + b.len()) =~= b);
        assert(x.len() == y.len());
    }
}

/// The directory for pictures is the one that is set for them, else the one that is set for
/// the browser; one that is set to nothing is none, and hides the other.
pub proof fn law_pictures_have_a_directory_of_their_own(
    first: PathBuf,
    playwright: Option<PathBuf>,
)
    ensures
        path_chars(first).len() > 0 ==> screenshot_dir(Some(first), playwright) == Some(first),
        path_chars(first).len() == 0 ==> screenshot_dir(Some(first), playwright) is None,
        path_chars(first).len() > 0 ==> screenshot_dir(None, Some(first)) == Some(first),
        path_chars(first).len() == 0 ==> screenshot_dir(None, Some(first)) is None,
        screenshot_dir(None, None) is None,
{
}

/// Pictures and videos go to the configured directory, and else to one in the workspace.
pub proof fn law_pictures_lie_in_the_workspace(dir: PathBuf, workspace: PathView)
    ensures
        media_dir(Some(dir), workspace) == given(dir),
        media_dir(None, workspace).directory().directory() == workspace,
        media_dir(None, workspace).directory().name() == ".ds-code"@,
        media_dir(None, workspace).name() == "playwright-output"@,
{
    law_names_stand_under_their_directory(workspace, ".ds-code"@);
    law_names_stand_under_their_directory(workspace.with(".ds-code"@), "playwright-output"@);
}

/// The workspace is the directory that is asked for where it is one, and else the home
/// directory, the current one, or a dot, whichever is known first.
pub proof fn law_workspaces_are_directories(
    asked: Seq<char>,
    is_dir: bool,
    home: Option<PathBuf>,
    current: Option<PathBuf>,
)
    ensures
        is_dir && trimmed(asked).len() > 0 ==> workspace_dir(asked, is_dir, home, current)
            == by_text(trimmed(asked)),
        !is_dir || trimmed(asked).len() == 0 ==> {
            &&& home matches Some(path) ==> workspace_dir(asked, is_dir, home, current) == given(
                path,
            )
            &&& home is None ==> (current matches Some(path) ==> workspace_dir(
                asked,
                is_dir,
                home,
                current,
            ) == given(path))
            &&& home is None && current is None ==> workspace_dir(asked, is_dir, home, current)
                == by_text("."@)
        },
{
}

/// A tool runs in the workspace, unless none is asked for and the current directory is
/// known. A task runs in its workspace as it is typed, and else on the desktop or in the
/// home directory.
pub proof fn law_tools_and_tasks_run_where_they_are_told(
    asked: Seq<char>,
    workspace: PathView,
    dir: PathBuf,
    other: Option<PathBuf>,
)
    ensures
        trimmed(asked).len() > 0 ==> tool_dir(asked, workspace, other) == workspace,
        trimmed(asked).len() == 0 ==> tool_dir(asked, workspace, Some(dir)) == given(dir),
        tool_dir(asked, workspace, None) == workspace,
        trimmed(asked).len() > 0 ==> task_dir(asked, Some(dir), other) == by_text(asked),
        trimmed(asked).len() == 0 ==> {
            &&& task_dir(asked, Some(dir), other) == given(dir)
            &&& task_dir(asked, None, Some(dir)) == given(dir)
            &&& task_dir(asked, None, None) == by_text("."@)
        },
{
}

} // verus!
