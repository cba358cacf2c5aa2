//! What is done to a repository with `git`, one command after the other.

use vstd::prelude::*;
use std::path::PathBuf;
use crate::git_status::{choose_git_dir, git_dir, GitCommand};
use crate::paths::path_chars;
use crate::text::views;

verus! {

/// What is done to a repository.
pub enum GitTask {
    Init,
    SetRemote(String),
    Commit(String),
    Fetch,
    Pull,
    Push,
}

/// What is done to a repository.
pub enum TaskView {
    Init,
    SetRemote(Seq<char>),
    Commit(Seq<char>),
    Fetch,
    Pull,
    Push,
}

impl View for GitTask {
    type V = TaskView;

    open spec fn view(&self) -> TaskView {
        match *self {
            GitTask::Init => TaskView::Init,
            GitTask::SetRemote(url) => TaskView::SetRemote(url@),
            GitTask::Commit(message) => TaskView::Commit(message@),
            GitTask::Fetch => TaskView::Fetch,
            GitTask::Pull => TaskView::Pull,
            GitTask::Push => TaskView::Push,
        }
    }
}

/// The next command of a task.
#[derive(Clone, Copy, PartialEq, Eq, Structural)]
pub enum TaskStage {
    /// Finds the root of the repository.
    Root,
    /// Looks whether the usual repository elsewhere is known.
    LookUp,
    /// Does what is asked for.
    Act,
    /// Makes the commit of what was added.
    Commit,
    Done,
}

/// How many commands are left at most.
pub open spec fn steps_left(stage: TaskStage) -> nat {
    match stage {
        TaskStage::Root => 4,
        TaskStage::LookUp => 3,
        TaskStage::Act => 2,
        TaskStage::Commit => 1,
        TaskStage::Done => 0,
    }
}

/// A task that is under way.
pub struct GitRun {
    pub task: GitTask,
    pub stage: TaskStage,
    pub workspace_path: String,
    pub repo_root: String,
    pub has_origin: bool,
}

/// A task that is under way.
#[verifier::ext_equal]
pub struct RunView {
    pub task: TaskView,
    pub stage: TaskStage,
    pub workspace_path: Seq<char>,
    pub repo_root: Seq<char>,
    pub has_origin: bool,
}

impl View for GitRun {
    type V = RunView;

    open spec fn view(&self) -> RunView {
        RunView {
            task: self.task@,
            stage: self.stage,
            workspace_path: self.workspace_path@,
            repo_root: self.repo_root@,
            has_origin: self.has_origin,
        }
    }
}

/// A task that begins. A repository is made in the directory that was asked for, or in
/// the home directory; all else begins with finding the root of the repository.
pub open spec fn fresh_run(
    task: TaskView,
    workspace: Seq<char>,
    home: Option<PathBuf>,
) -> RunView {
    RunView {
        task,
        stage: if task is Init {
            TaskStage::Act
        } else {
            TaskStage::Root
        },
        workspace_path: if task is Init {
            git_dir(workspace, home)
        } else {
            workspace
        },
        repo_root: seq![],
        has_origin: false,
    }
}

/// The arguments of the command that does what is asked for.
pub open spec fn act_args(task: TaskView, has_origin: bool) -> Seq<Seq<char>> {
    match task {
        TaskView::Init => seq!["init"@, "-b"@, "main"@],
        TaskView::SetRemote(url) => seq![
            "remote"@,
            if has_origin {
                "set-url"@
            } else {
                "add"@
            },
            "origin"@,
            url,
        ],
        TaskView::Commit(_) => seq!["add"@, "-A"@],
        TaskView::Fetch => seq!["fetch"@, "--prune"@, "origin"@],
        TaskView::Pull => seq!["pull"@, "--ff-only"@],
        TaskView::Push => seq!["push"@],
    }
}

/// The arguments of the next command.
pub open spec fn run_args(run: RunView) -> Seq<Seq<char>> {
    match run.stage {
        TaskStage::Root => seq!["rev-parse"@, "--show-toplevel"@],
        TaskStage::LookUp => seq!["remote"@, "get-url"@, "origin"@],
        TaskStage::Act => act_args(run.task, run.has_origin),
        TaskStage::Commit => match run.task {
            TaskView::Commit(message) => seq!["commit"@, "-m"@, message],
            _ => seq![],
        },
        TaskStage::Done => seq![],
    }
}

/// The directory that the next command runs in.
pub open spec fn run_dir(run: RunView) -> Seq<char> {
    if run.stage == TaskStage::Root || run.task is Init {
        run.workspace_path
    } else {
        run.repo_root
    }
}

/// The task after a command has ended. One that fails ends the task with its message,
/// but for the look whether the usual repository elsewhere is known.
pub open spec fn after_command(run: RunView, reply: Result<Seq<char>, Seq<char>>) -> Result<
    RunView,
    Seq<char>,
> {
    match run.stage {
        TaskStage::Root => match reply {
            Ok(root) => Ok(
                RunView {
                    stage: if run.task is SetRemote {
                        TaskStage::LookUp
                    } else {
                        TaskStage::Act
                    },
                    repo_root: root,
                    ..run
                },
            ),
            Err(e) => Err(e),
        },
        TaskStage::LookUp => Ok(
            RunView { stage: TaskStage::Act, has_origin: reply is Ok, ..run },
        ),
        TaskStage::Act => match reply {
            Ok(_) => Ok(
                RunView {
                    stage: if run.task is Commit {
                        TaskStage::Commit
                    } else {
                        TaskStage::Done
                    },
                    ..run
                },
            ),
            Err(e) => Err(e),
        },
        TaskStage::Commit => match reply {
            Ok(_) => Ok(RunView { stage: TaskStage::Done, ..run }),
            Err(e) => Err(e),
        },
        TaskStage::Done => Ok(run),
    }
}

/// The view of what a command printed, or of its complaint.
pub open spec fn reply_view(reply: Result<String, String>) -> Result<Seq<char>, Seq<char>> {
    match reply {
        Ok(text) => Ok(text@),
        Err(e) => Err(e@),
    }
}

impl GitRun {
    /// Begins a task, by what the system has for home.
    pub fn new(task: GitTask, workspace_path: &str, home: Option<PathBuf>) -> (r: GitRun)
        ensures
            r@ == fresh_run(task@, workspace_path@, home),
    {
        let init = match &task {
            GitTask::Init => true,
            _ => false,
        };
        let ghost view = task@;
        let r = GitRun {
            task,
            stage: if init {
                TaskStage::Act
            } else {
                TaskStage::Root
            },
            workspace_path: if init {
                choose_git_dir(workspace_path, home)
            } else {
                workspace_path.to_string()
            },
            repo_root: String::new(),
            has_origin: false,
        };
        assert(r@ =~= fresh_run(view, workspace_path@, home));
        r
    }

    /// Begins a task.
    pub fn start(task: GitTask, workspace_path: &str) -> (r: GitRun)
        ensures
            exists|home: Option<PathBuf>| r@ == #[trigger] fresh_run(task@, workspace_path@, home),
    {
        GitRun::new(task, workspace_path, dirs::home_dir())
    }

    /// The next command, unless the task is done.
    pub fn command(&self) -> (r: Option<GitCommand>)
        ensures
            r is None == (self@.stage == TaskStage::Done),
            r matches Some(c) ==> views(c.args@) == run_args(self@) && c.dir@ == run_dir(self@),
    {
        let mut args: Vec<String> = Vec::new();
        match self.stage {
            TaskStage::Root => {
                args.push("rev-parse".to_string());
                args.push("--show-toplevel".to_string());
            },
            TaskStage::LookUp => {
                args.push("remote".to_string());
                args.push("get-url".to_string());
                args.push("origin".to_string());
            },
            TaskStage::Act => match &self.task {
                GitTask::Init => {
                    args.push("init".to_string());
                    args.push("-b".to_string());
                    args.push("main".to_string());
                },
                GitTask::SetRemote(url) => {
                    args.push("remote".to_string());
                    if self.has_origin {
                        args.push("set-url".to_string());
                    } else {
                        args.push("add".to_string());
                    }
                    args.push("origin".to_string());
                    args.push(url.clone());
                },
                GitTask::Commit(_) => {
                    args.push("add".to_string());
                    args.push("-A".to_string());
                },
                GitTask::Fetch => {
                    args.push("fetch".to_string());
                    args.push("--prune".to_string());
                    args.push("origin".to_string());
                },
                GitTask::Pull => {
                    args.push("pull".to_string());
                    args.push("--ff-only".to_string());
                },
                GitTask::Push => {
                    args.push("push".to_string());
                },
            },
            TaskStage::Commit => match &self.task {
                GitTask::Commit(message) => {
                    args.push("commit".to_string());
                    args.push("-m".to_string());
                    args.push(message.clone());
                },
                _ => {},
            },
            TaskStage::Done => {
                return None;
            },
        }
        assert(views(args@) =~= run_args(self@));
        let here = match self.stage {
            TaskStage::Root => true,
            _ => match &self.task {
                GitTask::Init => true,
                _ => false,
            },
        };
        let dir = if here {
            self.workspace_path.clone()
        } else {
            self.repo_root.clone()
        };
        Some(GitCommand { args, dir })
    }

    /// Takes what the command printed, or its complaint.
    pub fn reply(&mut self, reply: Result<String, String>) -> (r: Result<(), String>)
        ensures
            match (r, after_command(old(self)@, reply_view(reply))) {
                (Ok(()), Ok(run)) => final(self)@ == run,
                (Err(e), Err(complaint)) => e@ == complaint && *final(self) == *old(self),
                _ => false,
            },
            old(self)@.stage != TaskStage::Done && r is Ok ==> steps_left(final(self)@.stage)
                < steps_left(old(self)@.stage),
    {
        let ghost before = self@;
        let ghost said = reply_view(reply);
        match self.stage {
            TaskStage::Root => {
                let root = match reply {
                    Ok(root) => root,
                    Err(e) => {
                        return Err(e);
                    },
                };
                self.stage = match &self.task {
                    GitTask::SetRemote(_) => TaskStage::LookUp,
                    _ => TaskStage::Act,
                };
                self.repo_root = root;
            },
            TaskStage::LookUp => {
                self.stage = TaskStage::Act;
                self.has_origin = reply.is_ok();
            },
            TaskStage::Act => {
                if let Err(e) = reply {
                    return Err(e);
                }
                self.stage = match &self.task {
                    GitTask::Commit(_) => TaskStage::Commit,
                    _ => TaskStage::Done,
                };
            },
            TaskStage::Commit => {
                if let Err(e) = reply {
                    return Err(e);
                }
                self.stage = TaskStage::Done;
            },
            TaskStage::Done => {},
        }
        assert(Ok::<RunView, Seq<char>>(self@) == after_command(before, said)) by {
            assert(self@ =~= after_command(before, said)->Ok_0);
        }
        Ok(())
    }
}

/// A commit is made after everything was added, and the address of the usual
/// repository elsewhere is set after a look whether it is known, both in the root of the
/// repository; where every command succeeds the task is done then.
pub proof fn law_stages_follow_one_another(
    task: TaskView,
    workspace: Seq<char>,
    home: Option<PathBuf>,
    root: Seq<char>,
    look: Result<Seq<char>, Seq<char>>,
    done: Seq<char>,
)
    ensures
        task is Init ==> (after_command(fresh_run(task, workspace, home), Ok(done)) matches Ok(run)
            && run.stage == TaskStage::Done),
        task is Commit ==> {
            &&& after_command(fresh_run(task, workspace, home), Ok(root)) matches Ok(first)
            &&& run_args(first) == seq!["add"@, "-A"@] && run_dir(first) == root
            &&& after_command(first, Ok(done)) matches Ok(second)
            &&& run_args(second) == seq!["commit"@, "-m"@, task->Commit_0] && run_dir(second) == root
            &&& after_command(second, Ok(done)) matches Ok(third)
            &&& third.stage == TaskStage::Done
        },
        task is SetRemote ==> {
            &&& after_command(fresh_run(task, workspace, home), Ok(root)) matches Ok(first)
            &&& run_args(first) == seq!["remote"@, "get-url"@, "origin"@] && run_dir(first) == root
            &&& after_command(first, look) matches Ok(second)
            &&& run_args(second) == seq![
                "remote"@,
                if look is Ok {
                    "set-url"@
                } else {
                    "add"@
                },
                "origin"@,
                task->SetRemote_0,
            ] && run_dir(second) == root
            &&& after_command(second, Ok(done)) matches Ok(third)
            &&& third.stage == TaskStage::Done
        },
{
}

/// Fetching, pulling and pushing is one command in the root of the repository, and making
/// one is one command in the directory itself.
pub proof fn law_single_commands_run_where_they_belong(
    task: TaskView,
    workspace: Seq<char>,
    home: Option<PathBuf>,
    root: Seq<char>,
    done: Seq<char>,
)
    ensures
        task is Init ==> {
            let run = fresh_run(task, workspace, home);
            &&& run_args(run) == seq!["init"@, "-b"@, "main"@]
            &&& workspace.len() > 0 ==> run_dir(run) == workspace
            &&& workspace.len() == 0 && home is Some ==> run_dir(run) == path_chars(home->0)
        },
        !(task is Init) ==> {
            let run = fresh_run(task, workspace, home);
            &&& run_args(run) == seq!["rev-parse"@, "--show-toplevel"@]
            &&& run_dir(run) == workspace
            &&& run.workspace_path == workspace
        },
        task is Fetch || task is Pull || task is Push ==> {
            &&& after_command(fresh_run(task, workspace, home), Ok(root)) matches Ok(first)
            &&& run_dir(first) == root
            &&& run_args(first) == (match task {
                TaskView::Fetch => seq!["fetch"@, "--prune"@, "origin"@],
                TaskView::Pull => seq!["pull"@, "--ff-only"@],
                _ => seq!["push"@],
            })
            &&& after_command(first, Ok(done)) matches Ok(second)
            &&& second.stage == TaskStage::Done
            &&& second.workspace_path == workspace
        },
{
}

/// A command that failed ends its run with its complaint; only the look for a repository
/// elsewhere may fail.
pub proof fn law_failed_commands_end_the_run(run: RunView, error: Seq<char>)
    ensures
        run.stage == TaskStage::Root || run.stage == TaskStage::Act || run.stage
            == TaskStage::Commit ==> after_command(run, Err(error)) == Err::<RunView, Seq<char>>(
            error,
        ),
        run.stage == TaskStage::LookUp ==> (after_command(run, Err(error)) matches Ok(next)
            && next.stage == TaskStage::Act && !next.has_origin),
{
}

} // verus!
