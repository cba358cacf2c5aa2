//! The state of a repository, as `git` reports it.
//!
//! The program runs the commands one after the other; the functions here say which
//! command comes next, and read what came back.

use vstd::prelude::*;
use std::path::PathBuf;
use crate::number::{
    decimal, decimal_nat, is_digit, law_decimal_reads_back, law_small_numbers_read_back, parse_i32,
    parsed_i32,
};
use crate::paths::{chars_or_nothing, path_chars, text_or_nothing};
use crate::search::{is_text, starts, starts_with};
use crate::split::{
    is_piece, joined, lemma_pieces_joined, lines, slice_views, split_lines, split_words, words,
};
use crate::text::{
    chars, lemma_run_len_is, lemma_tail_len_is, lemma_trim_of, lemma_trim_of_fixed, same, string,
    trim_class, trim_of, trim_str, trimmed, views, white, CharClass,
};

verus! {

/// The state of a repository.
pub struct GitStatus {
    pub ok: bool,
    pub error: String,
    pub workspace_path: String,
    pub repo_root: String,
    pub is_repo: bool,
    pub branch: String,
    pub upstream: String,
    pub ahead: i32,
    pub behind: i32,
    pub has_changes: bool,
    pub staged: i32,
    pub unstaged: i32,
    pub untracked: i32,
    pub remotes: Vec<GitRemote>,
    pub origin_url: String,
}

/// A repository elsewhere.
pub struct GitRemote {
    pub name: String,
    pub fetch_url: String,
    pub push_url: String,
}

/// A repository elsewhere.
pub struct RemoteView {
    pub name: Seq<char>,
    pub fetch_url: Seq<char>,
    pub push_url: Seq<char>,
}

impl View for GitRemote {
    type V = RemoteView;

    open spec fn view(&self) -> RemoteView {
        RemoteView { name: self.name@, fetch_url: self.fetch_url@, push_url: self.push_url@ }
    }
}

/// The views of a list of repositories elsewhere.
pub open spec fn remote_views(list: Seq<GitRemote>) -> Seq<RemoteView> {
    list.map_values(|r: GitRemote| r@)
}

/// The directory that a command is meant for: the one that was asked for, else home.
pub open spec fn git_dir(workspace: Seq<char>, home: Option<PathBuf>) -> Seq<char> {
    if workspace.len() == 0 {
        chars_or_nothing(home)
    } else {
        workspace
    }
}

/// The directory that a command is meant for, by what the system has for home.
pub fn choose_git_dir(workspace_path: &str, home: Option<PathBuf>) -> (r: String)
    ensures
        r@ == git_dir(workspace_path@, home),
{
    if workspace_path.is_empty() {
        text_or_nothing(home)
    } else {
        workspace_path.to_string()
    }
}

/// A command line of `git` and the directory that it runs in.
pub struct GitCommand {
    pub args: Vec<String>,
    pub dir: String,
}

/// The next command of a probe.
#[derive(Clone, Copy, PartialEq, Eq, Structural)]
pub enum GitStage {
    Root,
    Branch,
    Upstream,
    Counts,
    Changes,
    Remotes,
    Done,
}

/// How many commands are left at most.
pub open spec fn commands_left(stage: GitStage) -> nat {
    match stage {
        GitStage::Root => 6,
        GitStage::Branch => 5,
        GitStage::Upstream => 4,
        GitStage::Counts => 3,
        GitStage::Changes => 2,
        GitStage::Remotes => 1,
        GitStage::Done => 0,
    }
}

/// What is known of a repository so far.
pub struct GitProbe {
    pub stage: GitStage,
    pub workspace_path: String,
    pub is_repo: bool,
    pub repo_root: String,
    pub branch: String,
    pub upstream: String,
    pub counts: String,
    pub changes: String,
    pub remotes: String,
}

/// What is known of a repository so far.
#[verifier::ext_equal]
pub struct ProbeView {
    pub stage: GitStage,
    pub workspace_path: Seq<char>,
    pub is_repo: bool,
    pub repo_root: Seq<char>,
    pub branch: Seq<char>,
    pub upstream: Seq<char>,
    pub counts: Seq<char>,
    pub changes: Seq<char>,
    pub remotes: Seq<char>,
}

impl View for GitProbe {
    type V = ProbeView;

    open spec fn view(&self) -> ProbeView {
        ProbeView {
            stage: self.stage,
            workspace_path: self.workspace_path@,
            is_repo: self.is_repo,
            repo_root: self.repo_root@,
            branch: self.branch@,
            upstream: self.upstream@,
            counts: self.counts@,
            changes: self.changes@,
            remotes: self.remotes@,
        }
    }
}

/// Nothing is known yet of the repository in a directory.
pub open spec fn fresh_probe(dir: Seq<char>) -> ProbeView {
    ProbeView {
        stage: GitStage::Root,
        workspace_path: dir,
        is_repo: false,
        repo_root: seq![],
        branch: seq![],
        upstream: seq![],
        counts: seq![],
        changes: seq![],
        remotes: seq![],
    }
}

/// The arguments of the next command.
pub open spec fn probe_args(probe: ProbeView) -> Seq<Seq<char>> {
    match probe.stage {
        GitStage::Root => seq!["rev-parse"@, "--show-toplevel"@],
        GitStage::Branch => seq!["branch"@, "--show-current"@],
        GitStage::Upstream => seq![
            "rev-parse"@,
            "--abbrev-ref"@,
            "--symbolic-full-name"@,
            "@{u}"@,
        ],
        GitStage::Counts => seq![
            "rev-list"@,
            "--left-right"@,
            "--count"@,
            "HEAD..."@ + probe.upstream,
        ],
        GitStage::Changes => seq!["status"@, "--porcelain=v1"@, "-uall"@],
        GitStage::Remotes => seq!["remote"@, "-v"@],
        GitStage::Done => seq![],
    }
}

/// What is known after the next command has printed its text or failed. Only the first
/// command may not fail; what the others print is taken as nothing then. Without an
/// upstream there is nothing to count.
pub open spec fn after_reply(probe: ProbeView, reply: Option<Seq<char>>) -> ProbeView {
    let text = match reply {
        Some(s) => s,
        None => seq![],
    };
    match probe.stage {
        GitStage::Root => match reply {
            Some(root) => ProbeView {
                stage: GitStage::Branch,
                is_repo: true,
                repo_root: root,
                ..probe
            },
            None => ProbeView { stage: GitStage::Done, ..probe },
        },
        GitStage::Branch => ProbeView { stage: GitStage::Upstream, branch: text, ..probe },
        GitStage::Upstream => ProbeView {
            stage: if text.len() > 0 {
                GitStage::Counts
            } else {
                GitStage::Changes
            },
            upstream: text,
            ..probe
        },
        GitStage::Counts => ProbeView { stage: GitStage::Changes, counts: text, ..probe },
        GitStage::Changes => ProbeView { stage: GitStage::Remotes, changes: text, ..probe },
        GitStage::Remotes => ProbeView { stage: GitStage::Done, remotes: text, ..probe },
        GitStage::Done => probe,
    }
}

/// The view of what a command printed, where it did not fail.
pub open spec fn printed(reply: Result<String, String>) -> Option<Seq<char>> {
    match reply {
        Ok(text) => Some(text@),
        Err(_) => None,
    }
}

impl GitProbe {
    /// Begins with nothing known of the repository in a directory.
    pub fn new(dir: String) -> (r: GitProbe)
        ensures
            r@ == fresh_probe(dir@),
    {
        let r = GitProbe {
            stage: GitStage::Root,
            workspace_path: dir,
            is_repo: false,
            repo_root: String::new(),
            branch: String::new(),
            upstream: String::new(),
            counts: String::new(),
            changes: String::new(),
            remotes: String::new(),
        };
        assert(r@ =~= fresh_probe(dir@));
        r
    }

    /// Begins with nothing known of the repository in the directory that was asked for,
    /// or in the home directory.
    pub fn start(workspace_path: &str) -> (r: GitProbe)
        ensures
            exists|home: Option<PathBuf>|
                r@ == fresh_probe(#[trigger] git_dir(workspace_path@, home)),
    {
        GitProbe::new(choose_git_dir(workspace_path, dirs::home_dir()))
    }

    /// The next command, unless all is known.
    pub fn command(&self) -> (r: Option<GitCommand>)
        ensures
            r is None == (self@.stage == GitStage::Done),
            r matches Some(c) ==> {
                &&& views(c.args@) == probe_args(self@)
                &&& c.dir@ == if self@.stage == GitStage::Root {
                    self@.workspace_path
                } else {
                    self@.repo_root
                }
            },
    {
        let mut args: Vec<String> = Vec::new();
        match self.stage {
            GitStage::Root => {
                args.push("rev-parse".to_string());
                args.push("--show-toplevel".to_string());
            },
            GitStage::Branch => {
                args.push("branch".to_string());
                args.push("--show-current".to_string());
            },
            GitStage::Upstream => {
                args.push("rev-parse".to_string());
                args.push("--abbrev-ref".to_string());
                args.push("--symbolic-full-name".to_string());
                args.push("@{u}".to_string());
            },
            GitStage::Counts => {
                let mut range = "HEAD...".to_string();
                range.append(self.upstream.as_str());
                args.push("rev-list".to_string());
                args.push("--left-right".to_string());
                args.push("--count".to_string());
                args.push(range);
            },
            GitStage::Changes => {
                args.push("status".to_string());
                args.push("--porcelain=v1".to_string());
                args.push("-uall".to_string());
            },
            GitStage::Remotes => {
                args.push("remote".to_string());
                args.push("-v".to_string());
            },
            GitStage::Done => {
                return None;
            },
        }
        assert(views(args@) =~= probe_args(self@));
        let dir = match self.stage {
            GitStage::Root => self.workspace_path.clone(),
            _ => self.repo_root.clone(),
        };
        Some(GitCommand { args, dir })
    }

    /// Takes what the command printed, or that it failed.
    pub fn reply(&mut self, reply: Result<String, String>)
        ensures
            final(self)@ == after_reply(old(self)@, printed(reply)),
            old(self)@.stage != GitStage::Done ==> commands_left(final(self)@.stage)
                < commands_left(old(self)@.stage),
    {
        let ghost before = self@;
        let ghost said = printed(reply);
        let failed = reply.is_err();
        let text = match reply {
            Ok(text) => text,
            Err(_) => String::new(),
        };
        match self.stage {
            GitStage::Root => {
                if failed {
                    self.stage = GitStage::Done;
                } else {
                    self.stage = GitStage::Branch;
                    self.is_repo = true;
                    self.repo_root = text;
                }
            },
            GitStage::Branch => {
                self.stage = GitStage::Upstream;
                self.branch = text;
            },
            GitStage::Upstream => {
                if !text.as_str().is_empty() {
                    self.stage = GitStage::Counts;
                } else {
                    self.stage = GitStage::Changes;
                }
                self.upstream = text;
            },
            GitStage::Counts => {
                self.stage = GitStage::Changes;
                self.counts = text;
            },
            GitStage::Changes => {
                self.stage = GitStage::Remotes;
                self.changes = text;
            },
            GitStage::Remotes => {
                self.stage = GitStage::Done;
                self.remotes = text;
            },
            GitStage::Done => {},
        }
        assert(self@ =~= after_reply(before, said));
    }
}

/// The number at a place in a list of words, or zero.
pub open spec fn count_at(list: Seq<Seq<char>>, k: int) -> int {
    if 0 <= k < list.len() {
        match parsed_i32(list[k]) {
            Some(n) => n,
            None => 0,
        }
    } else {
        0
    }
}

/// Something of the file is staged: the first column is neither blank nor a question
/// mark.
pub open spec fn is_staged(line: Seq<char>) -> bool {
    line.len() > 0 && line[0] != ' ' && line[0] != '?'
}

/// Something of the file is not staged: the second column is not blank.
pub open spec fn is_unstaged(line: Seq<char>) -> bool {
    line.len() > 1 && line[1] != ' '
}

/// The file is not tracked.
pub open spec fn is_untracked(line: Seq<char>) -> bool {
    starts(line, "??"@)
}

/// How many lines there are of a kind.
pub open spec fn count_lines(list: Seq<Seq<char>>, kind: spec_fn(Seq<char>) -> bool) -> nat
    decreases list.len(),
{
    if list.len() == 0 {
        0
    } else {
        count_lines(list.drop_last(), kind) + if kind(list.last()) {
            1nat
        } else {
            0nat
        }
    }
}

/// The repository elsewhere that a line speaks of, if it has a name, an address and a
/// kind.
pub open spec fn names_remote(line: Seq<char>) -> bool {
    words(line).len() >= 3
}

/// The kind of an address, without the brackets around it.
pub open spec fn remote_kind(line: Seq<char>) -> Seq<char> {
    trim_of(words(line)[2], CharClass::OneOf("()"))
}

/// A repository elsewhere after a line that names it. Its address would be written down
/// for a kind with brackets; as the kind has none any more, it never is.
pub open spec fn after_mention(remote: RemoteView, line: Seq<char>) -> RemoteView {
    if remote_kind(line) == "(fetch)"@ {
        RemoteView { fetch_url: words(line)[1], ..remote }
    } else if remote_kind(line) == "(push)"@ {
        RemoteView { push_url: words(line)[1], ..remote }
    } else {
        remote
    }
}

/// The place of a name in a list of repositories elsewhere.
pub open spec fn remote_place(list: Seq<RemoteView>, name: Seq<char>) -> Option<int>
    decreases list.len(),
{
    if list.len() == 0 {
        None
    } else {
        match remote_place(list.drop_last(), name) {
            Some(k) => Some(k),
            None => if list.last().name == name {
                Some(list.len() - 1)
            } else {
                None
            },
        }
    }
}

/// The repositories elsewhere after one more line: the one that the line names stands
/// in the list once, at its first place.
pub open spec fn after_line(list: Seq<RemoteView>, line: Seq<char>) -> Seq<RemoteView> {
    if !names_remote(line) {
        list
    } else {
        let name = words(line)[0];
        match remote_place(list, name) {
            Some(k) => list.update(k, after_mention(list[k], line)),
            None => list.push(
                after_mention(RemoteView { name, fetch_url: seq![], push_url: seq![] }, line),
            ),
        }
    }
}

/// The repositories elsewhere that a list of lines names.
pub open spec fn remotes_of(list: Seq<Seq<char>>) -> Seq<RemoteView>
    decreases list.len(),
{
    if list.len() == 0 {
        seq![]
    } else {
        after_line(remotes_of(list.drop_last()), list.last())
    }
}

/// The address that is pushed to under the usual name.
pub open spec fn origin_address(list: Seq<RemoteView>) -> Seq<char> {
    match remote_place(list, "origin"@) {
        Some(k) => list[k].push_url,
        None => seq![],
    }
}

fn find_remote(list: &Vec<GitRemote>, name: &[char]) -> (r: Option<usize>)
    ensures
        match r {
            Some(k) => k < list@.len() && remote_place(remote_views(list@), name@) == Some(
                k as int,
            ),
            None => remote_place(remote_views(list@), name@) is None,
        },
{
    let ghost all = remote_views(list@);
    let wanted = string(name);
    let mut i: usize = 0;
    assert(all.take(0) =~= seq![]);
    while i < list.len()
        invariant
            i <= list@.len(),
            wanted@ == name@,
            all == remote_views(list@),
            remote_place(all.take(i as int), name@) is None,
        decreases list@.len() - i,
    {
        let ghost upto = all.take(i + 1);
        assert(upto.drop_last() =~= all.take(i as int));
        assert(upto.last() == list@[i as int]@);
        if same(list[i].name.as_str(), wanted.as_str()) {
            proof {
                lemma_remote_place_stays(all, i + 1, name@);
            }
            return Some(i);
        }
        i = i + 1;
    }
    assert(all.take(i as int) =~= all);
    None
}

proof fn lemma_remote_place_stays(list: Seq<RemoteView>, n: int, name: Seq<char>)
    requires
        0 <= n <= list.len(),
        remote_place(list.take(n), name) is Some,
    ensures
        remote_place(list, name) == remote_place(list.take(n), name),
    decreases list.len() - n,
{
    if n == list.len() {
        assert(list.take(n) =~= list);
    } else {
        assert(list.take(n + 1).drop_last() =~= list.take(n));
        lemma_remote_place_stays(list, n + 1, name);
    }
}

fn take_remote_line(list: &mut Vec<GitRemote>, line: &[char])
    ensures
        remote_views(final(list)@) == after_line(remote_views(old(list)@), line@),
{
    let parts = split_words(line);
    if parts.len() < 3 {
        return;
    }
    let ghost before = remote_views(list@);
    assert(words(line@)[0] == parts@[0]@);
    assert(words(line@)[1] == parts@[1]@);
    assert(words(line@)[2] == parts@[2]@);
    let kind = trim_class(parts[2], CharClass::OneOf("()"));
    let fetch = is_text(kind, "(fetch)");
    let push = !fetch && is_text(kind, "(push)");
    let found = find_remote(list, parts[0]);
    let (name, fetch_url, push_url) = match found {
        Some(k) => (
            list[k].name.clone(),
            list[k].fetch_url.clone(),
            list[k].push_url.clone(),
        ),
        None => (string(parts[0]), String::new(), String::new()),
    };
    let remote = GitRemote {
        name,
        fetch_url: if fetch {
            string(parts[1])
        } else {
            fetch_url
        },
        push_url: if push {
            string(parts[1])
        } else {
            push_url
        },
    };
    let ghost view = remote@;
    match found {
        Some(k) => {
            assert(before[k as int] == list@[k as int]@);
            assert(view == after_mention(before[k as int], line@));
            list.set(k, remote);
            assert(remote_views(list@) =~= before.update(k as int, view));
        },
        None => {
            let ghost fresh = RemoteView { name: parts@[0]@, fetch_url: seq![], push_url: seq![] };
            assert(view == after_mention(fresh, line@));
            list.push(remote);
            assert(remote_views(list@) =~= before.push(view));
        },
    }
}

fn read_remotes(text: &str) -> (r: Vec<GitRemote>)
    ensures
        remote_views(r@) == remotes_of(lines(text@)),
{
    let all = chars(text);
    let list = split_lines(all.as_slice());
    let ghost views = slice_views(list@);
    let mut out: Vec<GitRemote> = Vec::new();
    let mut i: usize = 0;
    assert(remote_views(out@) =~= seq![]);
    assert(views.take(0) =~= seq![]);
    while i < list.len()
        invariant
            i <= list@.len(),
            views == slice_views(list@),
            remote_views(out@) == remotes_of(views.take(i as int)),
        decreases list@.len() - i,
    {
        let ghost upto = views.take(i + 1);
        assert(upto.drop_last() =~= views.take(i as int));
        assert(upto.last() == list@[i as int]@);
        take_remote_line(&mut out, list[i]);
        i = i + 1;
    }
    assert(views.take(i as int) =~= views);
    out
}

struct Counts {
    staged: usize,
    unstaged: usize,
    untracked: usize,
}

fn count_changes(list: &Vec<&[char]>) -> (r: Counts)
    ensures
        r.staged == count_lines(slice_views(list@), |l: Seq<char>| is_staged(l)),
        r.unstaged == count_lines(slice_views(list@), |l: Seq<char>| is_unstaged(l)),
        r.untracked == count_lines(slice_views(list@), |l: Seq<char>| is_untracked(l)),
{
    let ghost views = slice_views(list@);
    let mut staged: usize = 0;
    let mut unstaged: usize = 0;
    let mut untracked: usize = 0;
    let mut i: usize = 0;
    assert(views.take(0) =~= seq![]);
    while i < list.len()
        invariant
            i <= list@.len(),
            views == slice_views(list@),
            staged <= i,
            unstaged <= i,
            untracked <= i,
            staged == count_lines(views.take(i as int), |l: Seq<char>| is_staged(l)),
            unstaged == count_lines(views.take(i as int), |l: Seq<char>| is_unstaged(l)),
            untracked == count_lines(views.take(i as int), |l: Seq<char>| is_untracked(l)),
        decreases list@.len() - i,
    {
        let line = list[i];
        let ghost upto = views.take(i + 1);
        assert(upto.drop_last() =~= views.take(i as int));
        assert(upto.last() == line@);
        if line.len() > 0 && line[0] != ' ' && line[0] != '?' {
            staged = staged + 1;
        }
        if line.len() > 1 && line[1] != ' ' {
            unstaged = unstaged + 1;
        }
        if starts_with(line, "??") {
            untracked = untracked + 1;
        }
        i = i + 1;
    }
    assert(views.take(i as int) =~= views);
    Counts { staged, unstaged, untracked }
}

fn read_count(list: &Vec<&[char]>, k: usize) -> (r: i32)
    ensures
        r == count_at(slice_views(list@), k as int),
{
    if k < list.len() {
        assert(slice_views(list@)[k as int] == list@[k as int]@);
        match parse_i32(list[k]) {
            Some(n) => n,
            None => 0,
        }
    } else {
        0
    }
}

/// The state is what the commands printed, or that there is no repository. (Counts are
/// kept in 32 bits.)
pub open spec fn is_status(r: GitStatus, probe: ProbeView) -> bool {
    let changes = lines(probe.changes);
    let remotes = remotes_of(lines(probe.remotes));
    &&& r.ok
    &&& r.error@.len() == 0
    &&& r.workspace_path@ == probe.workspace_path
    &&& r.is_repo == probe.is_repo
    &&& r.repo_root@ == probe.repo_root
    &&& r.branch@ == trimmed(probe.branch)
    &&& r.upstream@ == trimmed(probe.upstream)
    &&& r.ahead == count_at(words(trimmed(probe.counts)), 0)
    &&& r.behind == count_at(words(trimmed(probe.counts)), 1)
    &&& r.has_changes == (changes.len() > 0)
    &&& r.staged == count_lines(changes, |l: Seq<char>| is_staged(l)) as i32
    &&& r.unstaged == count_lines(changes, |l: Seq<char>| is_unstaged(l)) as i32
    &&& r.untracked == count_lines(changes, |l: Seq<char>| is_untracked(l)) as i32
    &&& remote_views(r.remotes@) == remotes
    &&& r.origin_url@ == origin_address(remotes)
}

/// The state of the repository, when all is known.
pub fn git_status(probe: &GitProbe) -> (r: GitStatus)
    ensures
        is_status(r, probe@),
{
    let counted = trim_str(probe.counts.as_str());
    let number_text = chars(counted.as_str());
    let numbers = split_words(number_text.as_slice());
    let change_text = chars(probe.changes.as_str());
    let changes = split_lines(change_text.as_slice());
    let counts = count_changes(&changes);
    let remotes = read_remotes(probe.remotes.as_str());
    let origin = chars("origin");
    let origin_url = match find_remote(&remotes, origin.as_slice()) {
        Some(k) => remotes[k].push_url.clone(),
        None => String::new(),
    };
    assert(slice_views(changes@).len() == changes@.len());
    GitStatus {
        ok: true,
        error: String::new(),
        workspace_path: probe.workspace_path.clone(),
        repo_root: probe.repo_root.clone(),
        is_repo: probe.is_repo,
        branch: trim_str(probe.branch.as_str()),
        upstream: trim_str(probe.upstream.as_str()),
        ahead: read_count(&numbers, 0),
        behind: read_count(&numbers, 1),
        has_changes: changes.len() > 0,
        staged: counts.staged as i32,
        unstaged: counts.unstaged as i32,
        untracked: counts.untracked as i32,
        remotes,
        origin_url,
    }
}

/// A directory without a repository is no error: its state is empty, and no further
/// command is run.
pub proof fn law_no_repository_is_no_error(dir: Seq<char>, r: GitStatus)
    requires
        is_status(r, after_reply(fresh_probe(dir), None)),
    ensures
        after_reply(fresh_probe(dir), None).stage == GitStage::Done,
        r.ok,
        r.error@.len() == 0,
        !r.is_repo,
        r.workspace_path@ == dir,
        r.repo_root@.len() == 0,
        r.branch@.len() == 0,
        r.upstream@.len() == 0,
        !r.has_changes,
        r.ahead == 0,
        r.behind == 0,
        r.staged == 0,
        r.unstaged == 0,
        r.untracked == 0,
        r.remotes@.len() == 0,
        r.origin_url@.len() == 0,
{
    let none: Seq<char> = seq![];
    assert(lines(none) =~= seq![]);
    lemma_trim_of_fixed(none, CharClass::White);
    assert(words(none) =~= seq![]);
    assert(remotes_of(lines(none)) =~= seq![]);
    assert(remote_views(r.remotes@).len() == 0);
    assert(remote_place(remotes_of(lines(none)), "origin"@) is None);
}

/// Files that are not tracked are among those with something that is not staged, and
/// not among those with something that is; no file is counted twice as the one or the
/// other.
pub proof fn law_untracked_files_are_not_staged(list: Seq<Seq<char>>)
    ensures
        count_lines(list, |l: Seq<char>| is_untracked(l)) <= count_lines(
            list,
            |l: Seq<char>| is_unstaged(l),
        ) <= list.len(),
        count_lines(list, |l: Seq<char>| is_untracked(l)) + count_lines(
            list,
            |l: Seq<char>| is_staged(l),
        ) <= list.len(),
    decreases list.len(),
{
    if list.len() > 0 {
        law_untracked_files_are_not_staged(list.drop_last());
        let line = list.last();
        if is_untracked(line) {
            reveal_strlit("??");
            let two = line.subrange(0, 2);
            assert(two[0] == '?' && two[1] == '?');
            assert(line[0] == two[0] && line[1] == two[1]);
        }
    }
}

/// Of repositories elsewhere the names are known and no addresses, not even that which is
/// pushed to under the usual name.
pub proof fn law_addresses_stay_empty(list: Seq<Seq<char>>)
    ensures
        forall|i: int|
            0 <= i < remotes_of(list).len() ==> (#[trigger] remotes_of(list)[i]).fetch_url.len()
                == 0 && remotes_of(list)[i].push_url.len() == 0,
        origin_address(remotes_of(list)).len() == 0,
    decreases list.len(),
{
    let after = remotes_of(list);
    if list.len() == 0 {
        assert(after =~= seq![]);
    } else {
        let before = remotes_of(list.drop_last());
        let line = list.last();
        law_addresses_stay_empty(list.drop_last());
        if names_remote(line) {
            lemma_kind_has_no_brackets(line);
            lemma_remote_place(before, words(line)[0]);
        }
    }
    lemma_remote_place(after, "origin"@);
}

/// A kind without the brackets around it is none with brackets.
proof fn lemma_kind_has_no_brackets(line: Seq<char>)
    ensures
        remote_kind(line) != "(fetch)"@,
        remote_kind(line) != "(push)"@,
{
    reveal_strlit("()");
    reveal_strlit("(fetch)");
    reveal_strlit("(push)");
    let class = CharClass::OneOf("()");
    lemma_trim_of(words(line)[2], class);
    assert("()"@[0] == '(');
    assert(class.holds('('));
}

/// No two repositories elsewhere of a state have the same name.
pub proof fn law_remote_names_are_distinct(list: Seq<Seq<char>>)
    ensures
        forall|i: int, j: int|
            0 <= i < j < remotes_of(list).len() ==> (#[trigger] remotes_of(list)[i]).name != (
            #[trigger] remotes_of(list)[j]).name,
    decreases list.len(),
{
    if list.len() == 0 {
        assert(remotes_of(list) =~= seq![]);
    } else {
        let before = remotes_of(list.drop_last());
        let after = remotes_of(list);
        law_remote_names_are_distinct(list.drop_last());
        let line = list.last();
        if names_remote(line) {
            lemma_remote_place(before, words(line)[0]);
            assert forall|i: int, j: int| 0 <= i < j < after.len() implies (#[trigger] after[i]).name
                != (#[trigger] after[j]).name by {
                if j < before.len() {
                    assert(before[i].name != before[j].name);
                    assert(after[i].name == before[i].name);
                    assert(after[j].name == before[j].name);
                } else {
                    assert(after[i] == before[i]);
                }
            }
        } else {
            assert(after == before);
        }
    }
}

proof fn lemma_remote_place(list: Seq<RemoteView>, name: Seq<char>)
    ensures
        match remote_place(list, name) {
            Some(k) => 0 <= k < list.len() && list[k].name == name,
            None => forall|i: int| 0 <= i < list.len() ==> (#[trigger] list[i]).name != name,
        },
    decreases list.len(),
{
    if list.len() > 0 {
        let front = list.drop_last();
        lemma_remote_place(front, name);
        match remote_place(front, name) {
            Some(k) => {
                assert(front[k] == list[k]);
            },
            None => {
                if list.last().name != name {
                    assert forall|i: int| 0 <= i < list.len() implies (#[trigger] list[i]).name
                        != name by {
                        if i < front.len() {
                            assert(front[i] == list[i]);
                        }
                    }
                }
            },
        }
    }
}

/// A line of the listing counts as staged exactly where its first column is neither blank
/// nor a question mark, as not staged where it has a second column that is not blank, and
/// as not tracked where it begins with two question marks; each line counts once.
pub proof fn law_each_line_is_counted_once(probe: ProbeView, r: GitStatus)
    requires
        is_status(r, probe),
        lines(probe.changes).len() <= i32::MAX,
    ensures
        r.staged == lines(probe.changes).filter(
            |l: Seq<char>| l.len() > 0 && l[0] != ' ' && l[0] != '?',
        ).len(),
        r.unstaged == lines(probe.changes).filter(|l: Seq<char>| l.len() > 1 && l[1] != ' ').len(),
        r.untracked == lines(probe.changes).filter(
            |l: Seq<char>| l.len() > 1 && l[0] == '?' && l[1] == '?',
        ).len(),
        r.has_changes == (probe.changes.len() > 0),
{
    let list = lines(probe.changes);
    lemma_counted(
        list,
        |l: Seq<char>| is_staged(l),
        |l: Seq<char>| l.len() > 0 && l[0] != ' ' && l[0] != '?',
    );
    lemma_counted(
        list,
        |l: Seq<char>| is_unstaged(l),
        |l: Seq<char>| l.len() > 1 && l[1] != ' ',
    );
    reveal_strlit("??");
    assert forall|l: Seq<char>| #[trigger] is_untracked(l) == (l.len() > 1 && l[0] == '?' && l[1]
        == '?') by {
        if l.len() > 1 {
            let two = l.subrange(0, 2);
            assert(two[0] == l[0] && two[1] == l[1]);
            assert((two =~= "??"@) == (l[0] == '?' && l[1] == '?'));
        }
    }
    lemma_counted(
        list,
        |l: Seq<char>| is_untracked(l),
        |l: Seq<char>| l.len() > 1 && l[0] == '?' && l[1] == '?',
    );
}

proof fn lemma_counted(
    list: Seq<Seq<char>>,
    kind: spec_fn(Seq<char>) -> bool,
    same_kind: spec_fn(Seq<char>) -> bool,
)
    requires
        forall|l: Seq<char>| #[trigger] kind(l) == same_kind(l),
    ensures
        count_lines(list, kind) == list.filter(same_kind).len(),
        count_lines(list, kind) <= list.len(),
    decreases list.len(),
{
    reveal(Seq::filter);
    if list.len() > 0 {
        lemma_counted(list.drop_last(), kind, same_kind);
        assert(kind(list.last()) == same_kind(list.last()));
    }
}

/// The letters with which `git` marks a staged change are all counted.
pub proof fn law_staged_letters_are_counted(line: Seq<char>)
    requires
        line.len() > 0,
        "MADRCTU"@.contains(line[0]),
    ensures
        is_staged(line),
        !is_untracked(line),
{
    reveal_strlit("MADRCTU");
    reveal_strlit("??");
    let k = choose|k: int| 0 <= k < 7 && "MADRCTU"@[k] == line[0];
    if is_untracked(line) {
        assert(line.subrange(0, 2)[0] == '?');
    }
}

/// The two numbers that `git` prints are those of the commits ahead and behind, in this
/// order.
pub proof fn law_commits_ahead_come_first(probe: ProbeView, r: GitStatus, ahead: int, behind: int)
    requires
        is_status(r, probe),
        0 <= ahead <= i32::MAX,
        0 <= behind <= i32::MAX,
        probe.counts == decimal(ahead) + seq!['\t'] + decimal(behind) + seq!['\n'],
    ensures
        r.ahead == ahead,
        r.behind == behind,
{
    let a = decimal(ahead);
    let b = decimal(behind);
    let both = a + seq!['\t'] + b;
    law_decimal_reads_back(ahead as nat, ahead as nat);
    law_decimal_reads_back(behind as nat, behind as nat);
    lemma_digits_are_not_white(ahead as nat);
    lemma_digits_are_not_white(behind as nat);
    law_small_numbers_read_back(ahead);
    law_small_numbers_read_back(behind);
    lemma_line_end(both);
    let list = seq![a, b];
    assert(list.drop_last() =~= seq![a]);
    assert(joined(list.drop_last(), seq!['\t']) == a);
    assert(joined(list, seq!['\t']) =~= both);
    assert(is_piece(a, CharClass::White));
    assert(is_piece(b, CharClass::White));
    lemma_pieces_joined(list, seq!['\t'], CharClass::White);
    assert(words(trimmed(probe.counts)) == list);
}

/// The digits of a number are no white space.
proof fn lemma_digits_are_not_white(n: nat)
    ensures
        decimal(n as int).len() > 0,
        forall|i: int| 0 <= i < decimal(n as int).len() ==> !white(#[trigger] decimal(n as int)[i]),
{
    law_decimal_reads_back(n, n);
    let s = decimal(n as int);
    assert forall|i: int| 0 <= i < s.len() implies !white(#[trigger] s[i]) by {
        if s[0] == '+' {
            assert(false) by {
                lemma_decimal_starts_with_digit(n);
            }
        }
        assert(is_digit(s[i]));
    }
}

proof fn lemma_decimal_starts_with_digit(n: nat)
    ensures
        decimal_nat(n).len() > 0,
        is_digit(decimal_nat(n)[0]),
    decreases n,
{
    if n >= 10 {
        lemma_decimal_starts_with_digit(n / 10);
    }
}

/// A line end behind a text is taken away with the white space.
proof fn lemma_line_end(s: Seq<char>)
    requires
        s.len() > 0,
        !white(s[0]),
        !white(s.last()),
    ensures
        trimmed(s + seq!['\n']) == s,
{
    let t = s + seq!['\n'];
    lemma_run_len_is(t, CharClass::White, true, 0);
    assert(t.skip(0) =~= t);
    assert(t[t.len() - 1] == '\n');
    lemma_tail_len_is(t, CharClass::White, 1);
    assert(trimmed(t) =~= s);
}

/// Branch and upstream are what `git` printed, without the line end.
pub proof fn law_names_lose_their_line_end(probe: ProbeView, r: GitStatus, name: Seq<char>)
    requires
        is_status(r, probe),
        name.len() > 0,
        !white(name[0]),
        !white(name.last()),
    ensures
        probe.branch == name || probe.branch == name + seq!['\n'] ==> r.branch@ == name,
        probe.upstream == name || probe.upstream == name + seq!['\n'] ==> r.upstream@ == name,
{
    lemma_line_end(name);
    lemma_trim_of_fixed(name, CharClass::White);
}

/// A repository is probed in six commands, or in five where there is no upstream, in its
/// root; what each printed is kept where it belongs, and what failed counts as nothing.
pub proof fn law_repositories_are_probed_in_order(
    dir: Seq<char>,
    root: Seq<char>,
    branch: Option<Seq<char>>,
    upstream: Option<Seq<char>>,
    counts: Option<Seq<char>>,
    changes: Option<Seq<char>>,
    remotes: Option<Seq<char>>,
)
    ensures
        ({
            let nothing = Seq::<char>::empty();
            let start = fresh_probe(dir);
            let first = after_reply(start, Some(root));
            let second = after_reply(first, branch);
            let third = after_reply(second, upstream);
            let tracked_branch = upstream matches Some(name) && name.len() > 0;
            let fourth = if tracked_branch {
                after_reply(third, counts)
            } else {
                third
            };
            let fifth = after_reply(fourth, changes);
            let last = after_reply(fifth, remotes);
            &&& probe_args(start) == seq!["rev-parse"@, "--show-toplevel"@]
            &&& probe_args(first) == seq!["branch"@, "--show-current"@]
            &&& probe_args(second) == seq![
                "rev-parse"@,
                "--abbrev-ref"@,
                "--symbolic-full-name"@,
                "@{u}"@,
            ]
            &&& tracked_branch ==> probe_args(third) == seq![
                "rev-list"@,
                "--left-right"@,
                "--count"@,
                "HEAD..."@ + upstream->0,
            ]
            &&& probe_args(fourth) == seq!["status"@, "--porcelain=v1"@, "-uall"@]
            &&& probe_args(fifth) == seq!["remote"@, "-v"@]
            &&& last.stage == GitStage::Done
            &&& last.is_repo
            &&& last.workspace_path == dir
            &&& last.repo_root == root
            &&& last.branch == (match branch {
                Some(s) => s,
                None => nothing,
            })
            &&& last.upstream == (match upstream {
                Some(s) => s,
                None => nothing,
            })
            &&& last.counts == (match counts {
                Some(s) if tracked_branch => s,
                _ => nothing,
            })
            &&& last.changes == (match changes {
                Some(s) => s,
                None => nothing,
            })
            &&& last.remotes == (match remotes {
                Some(s) => s,
                None => nothing,
            })
        }),
{
}

/// What is known of a repository reaches the user: where it was looked for, its root, and
/// that it is one.
pub proof fn law_the_state_says_where_it_is(probe: ProbeView, r: GitStatus)
    requires
        is_status(r, probe),
    ensures
        r.ok,
        r.error@.len() == 0,
        r.is_repo == probe.is_repo,
        r.workspace_path@ == probe.workspace_path,
        r.repo_root@ == probe.repo_root,
{
}

/// A repository elsewhere is known by a name exactly where that is the first word of a
/// line that has three.
pub proof fn law_remotes_are_named_by_their_lines(list: Seq<Seq<char>>, name: Seq<char>)
    ensures
        (exists|j: int|
            0 <= j < remotes_of(list).len() && (#[trigger] remotes_of(list)[j]).name == name) == (
        exists|i: int|
            #![trigger list[i]]
            0 <= i < list.len() && words(list[i]).len() >= 3 && words(list[i])[0] == name),
    decreases list.len(),
{
    let after = remotes_of(list);
    if list.len() > 0 {
        let front = list.drop_last();
        let line = list.last();
        let before = remotes_of(front);
        law_remotes_are_named_by_their_lines(front, name);
        if names_remote(line) {
            lemma_remote_place(before, words(line)[0]);
        }
        if exists|j: int| 0 <= j < after.len() && (#[trigger] after[j]).name == name {
            let j = choose|j: int| 0 <= j < after.len() && (#[trigger] after[j]).name == name;
            if j < before.len() && before[j].name == name {
                let i = choose|i: int|
                    #![trigger front[i]]
                    0 <= i < front.len() && words(front[i]).len() >= 3 && words(front[i])[0] == name;
                assert(list[i] == front[i]);
            } else {
                assert(list[list.len() - 1] == line);
            }
        }
        if exists|i: int|
            #![trigger list[i]]
            0 <= i < list.len() && words(list[i]).len() >= 3 && words(list[i])[0] == name {
            let i = choose|i: int|
                #![trigger list[i]]
                0 <= i < list.len() && words(list[i]).len() >= 3 && words(list[i])[0] == name;
            if i < front.len() {
                assert(front[i] == list[i]);
                let j = choose|j: int|
                    0 <= j < before.len() && (#[trigger] before[j]).name == name;
                assert(after[j].name == name);
            } else {
                match remote_place(before, words(line)[0]) {
                    Some(k) => {
                        assert(after[k].name == name);
                    },
                    None => {
                        assert(after[before.len() as int].name == name);
                    },
                }
            }
        }
    } else {
        assert(after =~= seq![]);
    }
}

/// Git runs in the workspace where one is given, and else in the home directory; without
/// one it runs nowhere in particular.
pub proof fn law_git_runs_in_the_workspace(workspace: Seq<char>, home: PathBuf)
    ensures
        workspace.len() > 0 ==> git_dir(workspace, Some(home)) == workspace,
        workspace.len() > 0 ==> git_dir(workspace, None) == workspace,
        workspace.len() == 0 ==> git_dir(workspace, Some(home)) == path_chars(home),
        workspace.len() == 0 ==> git_dir(workspace, None).len() == 0,
{
}

} // verus!
