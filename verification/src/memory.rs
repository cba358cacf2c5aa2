//! What the program remembers between sessions: notes and the user's preferences.

use vstd::prelude::*;
use std::path::PathBuf;
use crate::clock::{is_minute_stamp, utc_minute, MINUTE_FORM};
use crate::paths::{by_text, choose_data_dir, given, FilePath, PathView};
use crate::search::{contains_text, ends, matches_at, starts};
use crate::text::{same, trim_str, trimmed};

verus! {

/// What came of a command on the memory.
pub struct MemoryResult {
    pub ok: bool,
    pub content: String,
}

/// The files of the memory.
#[derive(Clone, Copy, Debug, PartialEq, Eq, Structural)]
pub enum MemoryFile {
    Notes,
    User,
}

/// The directory of the memory: in the configured directory, else, on Windows, in this
/// program's directory among those that the system has for data, and elsewhere in a hidden
/// directory of the home directory.
pub open spec fn memory_dir(
    configured: Option<PathBuf>,
    windows: bool,
    home: Option<PathBuf>,
    system: Option<PathBuf>,
) -> PathView {
    match configured {
        Some(dir) => given(dir).with("memory"@),
        None => if windows {
            crate::paths::data_dir(None, system).with("memory"@)
        } else {
            (match home {
                Some(dir) => given(dir),
                None => by_text("."@),
            }).with(".ds-code"@).with("memory"@)
        },
    }
}

/// The directory of the memory, by what the system has for home and for data.
pub fn choose_memory_dir(
    configured: Option<PathBuf>,
    windows: bool,
    home: Option<PathBuf>,
    system: Option<PathBuf>,
) -> (r: FilePath)
    ensures
        r@ == memory_dir(configured, windows, home, system),
{
    match configured {
        Some(dir) => FilePath::given(dir).with("memory"),
        None => if windows {
            choose_data_dir(None, system).with("memory")
        } else {
            let base = match home {
                Some(dir) => FilePath::given(dir),
                None => FilePath::by_text("."),
            };
            base.with(".ds-code").with("memory")
        },
    }
}

/// The directory of the memory: `~/.ds-code/memory`, or `%APPDATA%/ds-code/memory` on
/// Windows, unless a directory is configured. `configured` is what the variable
/// `DS_CODE_DATA_DIR` holds.
pub fn get_memory_dir(configured: Option<PathBuf>, windows: bool) -> (r: FilePath)
    ensures
        exists|home: Option<PathBuf>, system: Option<PathBuf>|
            r@ == #[trigger] memory_dir(configured, windows, home, system),
        configured matches Some(dir) ==> r@ == given(dir).with("memory"@),
{
    choose_memory_dir(configured, windows, dirs::home_dir(), dirs::data_dir())
}

/// The name of a file of the memory.
pub open spec fn memory_file_name(file: MemoryFile) -> Seq<char> {
    match file {
        MemoryFile::Notes => "MEMORY.md"@,
        MemoryFile::User => "USER.md"@,
    }
}

/// The file with the notes that are kept across sessions, in the directory of the
/// memory.
pub fn memory_path(dir: FilePath) -> (r: FilePath)
    ensures
        r@ == dir@.with("MEMORY.md"@),
{
    dir.with("MEMORY.md")
}

/// The file with the user's preferences, in the directory of the memory.
pub fn user_path(dir: FilePath) -> (r: FilePath)
    ensures
        r@ == dir@.with("USER.md"@),
{
    dir.with("USER.md")
}

/// The path of a file of the memory, in the directory of the memory.
pub fn memory_file_path(file: MemoryFile, dir: FilePath) -> (r: FilePath)
    ensures
        r@ == dir@.with(memory_file_name(file)),
{
    match file {
        MemoryFile::Notes => memory_path(dir),
        MemoryFile::User => user_path(dir),
    }
}

/// The files of the memory lie in one directory, that of the memory, under names of their
/// own.
pub proof fn law_memory_files_lie_together(dir: PathView)
    ensures
        dir.with(memory_file_name(MemoryFile::Notes)).directory() == dir,
        dir.with(memory_file_name(MemoryFile::User)).directory() == dir,
        dir.with(memory_file_name(MemoryFile::Notes)).name() == "MEMORY.md"@,
        dir.with(memory_file_name(MemoryFile::User)).name() == "USER.md"@,
        dir.with(memory_file_name(MemoryFile::Notes)) != dir.with(
            memory_file_name(MemoryFile::User),
        ),
{
    let notes = dir.with(memory_file_name(MemoryFile::Notes));
    let user = dir.with(memory_file_name(MemoryFile::User));
    assert(notes.directory() =~= dir);
    assert(user.directory() =~= dir);
    reveal_strlit("MEMORY.md");
    reveal_strlit("USER.md");
    assert("MEMORY.md"@.len() != "USER.md"@.len());
    assert(notes.parts.last() != user.parts.last());
}

/// What a file of the memory holds: nothing where it could not be read.
pub open spec fn memory_content(read: Result<Seq<char>, Seq<char>>) -> Seq<char> {
    match read {
        Ok(content) => content,
        Err(_) => seq![],
    }
}

/// A result of reading or writing, by its views.
pub open spec fn outcome(read: Result<String, String>) -> Result<Seq<char>, Seq<char>> {
    match read {
        Ok(content) => Ok(content@),
        Err(e) => Err(e@),
    }
}

/// What a file of the memory holds, by what came of reading it.
pub fn load_memory(read: Result<String, String>) -> (r: String)
    ensures
        r@ == memory_content(outcome(read)),
{
    match read {
        Ok(content) => content,
        Err(_) => String::new(),
    }
}

/// What is said of a failure to write.
pub open spec fn write_report(
    written: Result<(), String>,
    what: Seq<char>,
) -> Result<(), Seq<char>> {
    match written {
        Ok(()) => Ok(()),
        Err(e) => Err(what + e@),
    }
}

/// A result of writing, by its view.
pub open spec fn written_view(written: Result<(), String>) -> Result<(), Seq<char>> {
    match written {
        Ok(()) => Ok(()),
        Err(e) => Err(e@),
    }
}

fn report(written: Result<(), String>, what: &str) -> (r: Result<(), String>)
    ensures
        written_view(r) == write_report(written, what@),
{
    match written {
        Ok(()) => Ok(()),
        Err(e) => {
            let mut text = what.to_string();
            text.append(e.as_str());
            Err(text)
        },
    }
}

/// What came of saving a file of the memory, by what came of writing it.
pub fn save_memory(written: Result<(), String>) -> (r: Result<(), String>)
    ensures
        written_view(r) == write_report(written, "Failed to save memory: "@),
{
    report(written, "Failed to save memory: ")
}

/// The notes with an entry put behind them, under a heading with its time.
pub open spec fn with_entry(
    existing: Seq<char>,
    stamp: Seq<char>,
    entry: Seq<char>,
) -> Seq<char> {
    let before = if existing.len() == 0 {
        existing
    } else {
        existing.push('\n')
    };
    before + ("### "@ + stamp + "\n"@ + trimmed(entry) + "\n"@)
}

/// The notes with an entry put behind them.
pub fn append_entry(existing: &str, stamp: &str, entry: &str) -> (r: String)
    ensures
        r@ == with_entry(existing@, stamp@, entry@),
{
    let mut out = existing.to_string();
    if !existing.is_empty() {
        out.push('\n');
    }
    let mut block = "### ".to_string();
    block.append(stamp);
    block.append("\n");
    block.append(trim_str(entry).as_str());
    block.append("\n");
    out.append(block.as_str());
    out
}

/// The notes to write when an entry is put behind them now. `read` is what came of
/// reading them.
pub fn append_memory(read: Result<String, String>, entry: &str) -> (r: String)
    ensures
        exists|stamp: Seq<char>|
            is_minute_stamp(stamp) && r@ == #[trigger] with_entry(
                memory_content(outcome(read)),
                stamp,
                entry@,
            ),
{
    let existing = load_memory(read);
    let stamp = utc_minute(MINUTE_FORM);
    append_entry(existing.as_str(), stamp.as_str(), entry)
}

/// What came of putting an entry behind the notes, by what came of writing them.
pub fn append_report(written: Result<(), String>) -> (r: Result<(), String>)
    ensures
        written_view(r) == write_report(written, "Failed to append memory: "@),
{
    report(written, "Failed to append memory: ")
}

/// The block of a prompt that tells an agent what is remembered: nothing where
/// there is neither a note nor a preference.
pub open spec fn memory_block(notes: Seq<char>, user: Seq<char>) -> Seq<char> {
    let notes = trimmed(notes);
    let user = trimmed(user);
    if notes.len() == 0 && user.len() == 0 {
        seq![]
    } else {
        "\n## 持久记忆\n"@ + (if notes.len() > 0 {
            notes.push('\n')
        } else {
            seq![]
        }) + (if user.len() > 0 {
            "\n### 用户偏好\n"@ + user.push('\n')
        } else {
            seq![]
        }) + "\n请根据以上记忆和用户偏好调整你的回答和行为。\n"@
    }
}

/// The block of a prompt that tells an agent what is remembered, by what came of
/// reading the notes and the preferences.
pub fn read_memory_injection(notes: Result<String, String>, user: Result<String, String>) -> (r:
    String)
    ensures
        r@ == memory_block(memory_content(outcome(notes)), memory_content(outcome(user))),
{
    let mem = trim_str(load_memory(notes).as_str());
    let usr = trim_str(load_memory(user).as_str());
    if mem.as_str().is_empty() && usr.as_str().is_empty() {
        return String::new();
    }
    let ghost spec = memory_block(memory_content(outcome(notes)), memory_content(outcome(user)));
    let mut block = "\n## 持久记忆\n".to_string();
    if !mem.as_str().is_empty() {
        block.append(mem.as_str());
        block.push('\n');
    }
    if !usr.as_str().is_empty() {
        block.append("\n### 用户偏好\n");
        block.append(usr.as_str());
        block.push('\n');
    }
    block.append("\n请根据以上记忆和用户偏好调整你的回答和行为。\n");
    assert(block@ =~= spec);
    block
}

/// An entry that was put behind the notes can be read there, and so can all that
/// was there before.
pub proof fn law_notes_are_kept(existing: Seq<char>, stamp: Seq<char>, entry: Seq<char>)
    ensures
        contains_text(with_entry(existing, stamp, entry), trimmed(entry)),
        with_entry(existing, stamp, entry).len() >= existing.len(),
        with_entry(existing, stamp, entry).take(existing.len() as int) == existing,
{
    let out = with_entry(existing, stamp, entry);
    let before = if existing.len() == 0 {
        existing
    } else {
        existing.push('\n')
    };
    let at = before.len() + ("### "@ + stamp + "\n"@).len();
    assert(out.subrange(at as int, (at + trimmed(entry).len()) as int) =~= trimmed(entry));
    assert(matches_at(out, trimmed(entry), at as int));
    assert(out.take(existing.len() as int) =~= existing);
}

/// Notes and preferences reach the agent whole, but for the white space around
/// them, and where both are blank the prompt is left alone.
pub proof fn law_memory_reaches_the_prompt(notes: Seq<char>, user: Seq<char>)
    ensures
        contains_text(memory_block(notes, user), trimmed(notes)),
        contains_text(memory_block(notes, user), trimmed(user)),
        (memory_block(notes, user).len() == 0) == (trimmed(notes).len() == 0 && trimmed(user).len()
            == 0),
{
    reveal_strlit("\n## 持久记忆\n");
    let out = memory_block(notes, user);
    let n = trimmed(notes);
    let u = trimmed(user);
    if n.len() == 0 && u.len() == 0 {
        assert(out.subrange(0, 0) =~= n);
        assert(out.subrange(0, 0) =~= u);
        assert(matches_at(out, n, 0));
        assert(matches_at(out, u, 0));
    } else {
        let head = "\n## 持久记忆\n"@;
        let first = if n.len() > 0 {
            n.push('\n')
        } else {
            Seq::<char>::empty()
        };
        assert(out.subrange(head.len() as int, (head.len() + n.len()) as int) =~= n);
        assert(matches_at(out, n, head.len() as int));
        if u.len() > 0 {
            let at = head.len() + first.len() + "\n### 用户偏好\n"@.len();
            assert(out.subrange(at as int, (at + u.len()) as int) =~= u);
            assert(matches_at(out, u, at as int));
        } else {
            assert(out.subrange(0, 0) =~= u);
            assert(matches_at(out, u, 0));
        }
    }
}

/// Which file of the memory a name stands for.
pub open spec fn named_file(file_type: Seq<char>) -> Option<MemoryFile> {
    if file_type == "memory"@ {
        Some(MemoryFile::Notes)
    } else if file_type == "user"@ {
        Some(MemoryFile::User)
    } else {
        None
    }
}

/// What is answered to a name that stands for no file.
pub const INVALID_FILE: &'static str = "Invalid file_type. Use 'memory' or 'user'.";

/// Which file of the memory a name stands for, or the answer where it is none.
pub fn memory_file(file_type: &str) -> (r: Result<MemoryFile, MemoryResult>)
    ensures
        match r {
            Ok(file) => named_file(file_type@) == Some(file),
            Err(answer) => named_file(file_type@) is None && !answer.ok && answer.content@
                == INVALID_FILE@,
        },
{
    if same(file_type, "memory") {
        Ok(MemoryFile::Notes)
    } else if same(file_type, "user") {
        Ok(MemoryFile::User)
    } else {
        Err(MemoryResult { ok: false, content: INVALID_FILE.to_string() })
    }
}

/// The answer to a request for what a file holds.
pub fn get_memory(read: Result<String, String>) -> (r: MemoryResult)
    ensures
        r.ok,
        r.content@ == memory_content(outcome(read)),
{
    MemoryResult { ok: true, content: load_memory(read) }
}

fn answer(done: Result<(), String>, said: &str) -> (r: MemoryResult)
    ensures
        r.ok == (done is Ok),
        r.content@ == match done {
            Ok(()) => said@,
            Err(e) => e@,
        },
{
    match done {
        Ok(()) => MemoryResult { ok: true, content: said.to_string() },
        Err(e) => MemoryResult { ok: false, content: e },
    }
}

/// The answer to a request to save a file, by what came of writing it.
pub fn save_memory_answer(written: Result<(), String>) -> (r: MemoryResult)
    ensures
        r.ok == (written is Ok),
        r.content@ == match write_report(written, "Failed to save memory: "@) {
            Ok(()) => "Saved."@,
            Err(e) => e,
        },
{
    answer(save_memory(written), "Saved.")
}

/// The answer to a request to put an entry behind the notes, by what came of
/// writing them.
pub fn append_memory_entry(written: Result<(), String>) -> (r: MemoryResult)
    ensures
        r.ok == (written is Ok),
        r.content@ == match write_report(written, "Failed to append memory: "@) {
            Ok(()) => "Appended."@,
            Err(e) => e,
        },
{
    answer(append_report(written), "Appended.")
}

/// The memory lies in the configured directory where there is one, wherever else the system
/// has its directories; without one it lies with the other data on Windows, and in the home
/// directory elsewhere.
pub proof fn law_memory_lies_where_it_is_configured(
    dir: PathBuf,
    windows: bool,
    home: Option<PathBuf>,
    system: Option<PathBuf>,
)
    ensures
        memory_dir(Some(dir), windows, home, system) == given(dir).with("memory"@),
        memory_dir(None, false, Some(dir), system) == given(dir).with(".ds-code"@).with("memory"@),
        memory_dir(None, false, None, system) == by_text("."@).with(".ds-code"@).with("memory"@),
        memory_dir(None, true, home, Some(dir)) == given(dir).with("ds-code"@).with("memory"@),
        memory_dir(None, true, home, None) == by_text("."@).with("ds-code"@).with("memory"@),
{
}

/// What can be read is the memory, and what cannot be read is none.
pub proof fn law_unreadable_memory_is_empty(content: Seq<char>, error: Seq<char>)
    ensures
        memory_content(Ok(content)) == content,
        memory_content(Err(error)).len() == 0,
{
}

/// The first entry begins with its time, and each later one comes on a line of its own
/// behind what was there before.
pub proof fn law_entries_stand_under_their_time(
    existing: Seq<char>,
    stamp: Seq<char>,
    entry: Seq<char>,
)
    ensures
        starts(with_entry(seq![], stamp, entry), "### "@ + stamp + "\n"@),
        ends(with_entry(seq![], stamp, entry), "\n"@ + trimmed(entry) + "\n"@),
        with_entry(seq![], stamp, entry).len() == 6 + stamp.len() + trimmed(entry).len(),
        existing.len() > 0 ==> with_entry(existing, stamp, entry) == existing + seq!['\n']
            + with_entry(seq![], stamp, entry),
{
    reveal_strlit("### ");
    reveal_strlit("\n");
    let first = with_entry(seq![], stamp, entry);
    let n = 5int + stamp.len();
    assert(first.subrange(0, n) =~= "### "@ + stamp + "\n"@);
    let tail = "\n"@ + trimmed(entry) + "\n"@;
    assert(first.subrange(first.len() - tail.len(), first.len() as int) =~= tail);
    if existing.len() > 0 {
        assert(with_entry(existing, stamp, entry) =~= existing + seq!['\n'] + first);
    }
}

/// The notes stand first in what the prompt gets, under their heading; the user's wishes
/// stand behind them, under a heading of their own; and the demand to heed them comes last.
pub proof fn law_notes_stand_before_the_wishes(notes: Seq<char>, user: Seq<char>)
    ensures
        ({
            let block = memory_block(notes, user);
            let wishes = "\n### 用户偏好\n"@ + trimmed(user) + "\n"@;
            let demand = "\n请根据以上记忆和用户偏好调整你的回答和行为。\n"@;
            &&& trimmed(notes).len() > 0 ==> starts(block, "\n## 持久记忆\n"@ + trimmed(notes) + "\n"@)
            &&& trimmed(user).len() > 0 ==> ends(block, wishes + demand)
            &&& trimmed(notes).len() > 0 || trimmed(user).len() > 0 ==> starts(
                block,
                "\n## 持久记忆\n"@,
            ) && ends(block, demand)
            &&& trimmed(notes).len() > 0 && trimmed(user).len() > 0 ==> block
                == "\n## 持久记忆\n"@ + trimmed(notes) + "\n"@ + wishes + demand
        }),
{
    reveal_strlit("\n");
    let block = memory_block(notes, user);
    let head = "\n## 持久记忆\n"@;
    let first = head + trimmed(notes) + "\n"@;
    let wishes = "\n### 用户偏好\n"@ + trimmed(user) + "\n"@;
    let demand = "\n请根据以上记忆和用户偏好调整你的回答和行为。\n"@;
    if trimmed(notes).len() > 0 || trimmed(user).len() > 0 {
        assert(block.subrange(0, head.len() as int) =~= head);
        assert(block.subrange(block.len() - demand.len(), block.len() as int) =~= demand);
    }
    if trimmed(notes).len() > 0 {
        assert(block.subrange(0, first.len() as int) =~= first);
    }
    if trimmed(user).len() > 0 {
        let last = wishes + demand;
        assert(block.subrange(block.len() - last.len(), block.len() as int) =~= last);
        if trimmed(notes).len() > 0 {
            assert(block =~= first + wishes + demand);
        }
    }
}

/// There are two files, each known by one name.
pub proof fn law_files_are_known_by_name(file_type: Seq<char>)
    ensures
        file_type == "memory"@ ==> named_file(file_type) == Some(MemoryFile::Notes),
        file_type == "user"@ ==> named_file(file_type) == Some(MemoryFile::User),
        file_type != "memory"@ && file_type != "user"@ ==> named_file(file_type) is None,
{
    reveal_strlit("memory");
    reveal_strlit("user");
    assert("memory"@.len() == 6 && "user"@.len() == 4);
}

/// Writing is reported as it went, and a failure with what was to be done before the error.
pub proof fn law_failed_writes_are_reported(written: Result<(), String>, what: Seq<char>)
    ensures
        written is Ok == write_report(written, what) is Ok,
        written matches Err(e) ==> (write_report(written, what) matches Err(report) && starts(
            report,
            what,
        ) && ends(report, e@) && report.len() == what.len() + e@.len()),
{
    if let Err(e) = written {
        let report = what + e@;
        assert(report.subrange(0, what.len() as int) =~= what);
        assert(report.subrange(report.len() - e@.len(), report.len() as int) =~= e@);
    }
}

} // verus!
