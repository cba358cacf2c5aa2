//! Skills: texts with instructions for the agent, one file each.

use vstd::prelude::*;
use crate::search::{
    after_prefix, contains_text, ends, find, lemma_find, lemma_found_behind, matches_at,
    split_first, split_once, starts, strip_prefix,
};
use crate::settings::Settings;
use crate::split::{join, joined, lines, slice_views, split_lines};
use crate::text::{
    chars, clone_list, lemma_views_push, same, string, trim, trim_class, trim_of, trim_str, trimmed,
    views, CharClass,
};

verus! {

/// A skill and the file that it is in.
pub struct SkillTemplate {
    pub id: String,
    pub name: String,
    pub description: String,
    pub source: String,
    pub origin: String,
    pub path: String,
    pub content: String,
}

/// A skill and the file that it is in.
pub struct SkillView {
    pub id: Seq<char>,
    pub name: Seq<char>,
    pub description: Seq<char>,
    pub source: Seq<char>,
    pub origin: Seq<char>,
    pub path: Seq<char>,
    pub content: Seq<char>,
}

impl View for SkillTemplate {
    type V = SkillView;

    open spec fn view(&self) -> SkillView {
        SkillView {
            id: self.id@,
            name: self.name@,
            description: self.description@,
            source: self.source@,
            origin: self.origin@,
            path: self.path@,
            content: self.content@,
        }
    }
}

/// What came of making a skill.
pub struct SkillTemplateActionResult {
    pub ok: bool,
    pub error: String,
    pub skill: Option<SkillTemplate>,
    pub skill_root: String,
    pub path: String,
}

/// What came of importing skills.
pub struct SkillImportActionResult {
    pub ok: bool,
    pub error: String,
    pub skills: Vec<SkillTemplate>,
    pub skill_root: String,
    pub path: String,
}

/// The text of the skill for planning and verification.
pub const SUPERPOWERS: &'static str = "# Superpowers\n\nUse this skill to strengthen planning, task decomposition, code editing, verification, and final reporting.\n\n- Start by identifying the user's concrete goal and the workspace scope.\n- Prefer small, reversible edits that match the existing codebase.\n- Verify changes with the narrowest useful command before reporting completion.\n- Surface blockers, assumptions, and residual risk clearly.\n";

/// The text of the skill for user interfaces.
pub const UI_UX_DESIGN: &'static str = "# UI/UX Design\n\nUse this skill for product UI work, desktop app polish, and visual interaction checks.\n\n- Keep primary workflows visible and reduce default configuration clutter.\n- Use familiar controls: icon buttons for tools, toggles for binary settings, and compact panels for advanced options.\n- Check spacing, overflow, text fit, empty states, disabled states, and responsive constraints.\n- Prefer restrained, work-focused surfaces for developer tools.\n";

/// The text of the skill for cron files.
pub const CRON_SCHEDULER: &'static str = "---\nname: cron-scheduler\ndescription: Advanced-only helper for hand-authored crontab files. Normal scheduled tasks are managed by the Scheduled Tasks screen.\n---\n\n# Cron Advanced Scripts\n\nUse this skill only when the user explicitly asks for a raw cron file or crontab snippet. For normal recurring Agent tasks, use the desktop Scheduled Tasks screen.\n\n- Treat this as an advanced escape hatch, not the default scheduled-task workflow.\n- Generate and validate a cron file before discussing installation.\n- Do not run `crontab`, overwrite an existing crontab, or install a task unless the user explicitly asks.\n- Prefer outputs under `.deepseek/cron/` and logs under `.deepseek/logs/`.\n";

/// The text of the skill for fetching skills.
pub const SKILL_DOWNLOADER: &'static str = "---\nname: skill-downloader\ndescription: Use when the user asks to download, install, import, fetch, or update a Skill from a URL, GitHub raw file, local path, or archive.\n---\n\n# Skill Downloader\n\nUse this skill when a user asks to download or install a Skill during a desktop Agent conversation.\n\n- Do not synthesize remote Skill content. Download or copy the source bytes first, then verify the saved file.\n- Prefer `curl -fsSL \"<skill-url>\" -o \".deepseek/skills/<skill-id>/SKILL.md\"` for URL sources.\n- Verify with a non-empty file check and inspect the first lines for `name:` and `description:` frontmatter.\n- Report the source URL, destination path, and verification result.\n";

/// The skills that are there from the start.
pub open spec fn preset_ids() -> Seq<Seq<char>> {
    seq!["superpowers"@, "ui-ux-design"@, "cron-scheduler"@, "skill-downloader"@]
}

/// The text of a skill that is there from the start.
pub open spec fn preset_content(id: Seq<char>) -> Option<Seq<char>> {
    if id == "superpowers"@ {
        Some(SUPERPOWERS@)
    } else if id == "ui-ux-design"@ {
        Some(UI_UX_DESIGN@)
    } else if id == "cron-scheduler"@ {
        Some(CRON_SCHEDULER@)
    } else if id == "skill-downloader"@ {
        Some(SKILL_DOWNLOADER@)
    } else {
        None
    }
}

/// The text of a skill that is there from the start.
pub fn default_skill_content(id: &str) -> (r: Option<&'static str>)
    ensures
        match r {
            Some(text) => preset_content(id@) == Some(text@),
            None => preset_content(id@) is None,
        },
{
    if same(id, "superpowers") {
        Some(SUPERPOWERS)
    } else if same(id, "ui-ux-design") {
        Some(UI_UX_DESIGN)
    } else if same(id, "cron-scheduler") {
        Some(CRON_SCHEDULER)
    } else if same(id, "skill-downloader") {
        Some(SKILL_DOWNLOADER)
    } else {
        None
    }
}

/// The skills that are there from the start.
pub fn default_skill_ids() -> (r: Vec<String>)
    ensures
        views(r@) == preset_ids(),
{
    let mut ids: Vec<String> = Vec::new();
    ids.push("superpowers".to_string());
    ids.push("ui-ux-design".to_string());
    ids.push("cron-scheduler".to_string());
    ids.push("skill-downloader".to_string());
    assert(views(ids@) =~= preset_ids());
    ids
}

/// Every skill that is there from the start has a text.
pub proof fn law_presets_have_content(id: Seq<char>)
    ensures
        preset_ids().contains(id) == (preset_content(id) is Some),
{
    let ids = preset_ids();
    if preset_content(id) is Some {
        assert(ids[0] == id || ids[1] == id || ids[2] == id || ids[3] == id);
    }
}

/// The value of the first line that begins with a key, without the white space and
/// the double quotes around it; nothing where there is no such line.
pub open spec fn line_value(list: Seq<Seq<char>>, key: Seq<char>) -> Seq<char>
    decreases list.len(),
{
    if list.len() == 0 {
        seq![]
    } else {
        match after_prefix(trimmed(list[0]), key) {
            Some(value) => trim_of(trimmed(value), CharClass::OneOf("\"")),
            None => line_value(list.drop_first(), key),
        }
    }
}

/// The head of a text: what stands between three hyphens at its beginning and the
/// next three.
pub open spec fn front_matter(content: Seq<char>) -> Option<Seq<char>> {
    match after_prefix(content, "---"@) {
        Some(rest) => match split_first(rest, "---"@) {
            Some((front, _)) => Some(front),
            None => None,
        },
        None => None,
    }
}

/// The value of a key in the head of a text.
pub open spec fn front_value(content: Seq<char>, key: Seq<char>) -> Seq<char> {
    match front_matter(content) {
        Some(front) => line_value(lines(front), key + ":"@),
        None => seq![],
    }
}

fn find_line_value(list: &Vec<&[char]>, key: &str) -> (r: String)
    ensures
        r@ == line_value(slice_views(list@), key@),
{
    let ghost all = slice_views(list@);
    let mut i: usize = 0;
    assert(all.skip(0) =~= all);
    while i < list.len()
        invariant
            i <= list@.len(),
            all == slice_views(list@),
            line_value(all, key@) == line_value(all.skip(i as int), key@),
        decreases list@.len() - i,
    {
        let ghost rest = all.skip(i as int);
        assert(rest[0] == list@[i as int]@);
        assert(rest.drop_first() =~= all.skip(i + 1));
        if let Some(value) = strip_prefix(trim(list[i]), key) {
            return string(trim_class(trim(value), CharClass::OneOf("\"")));
        }
        i = i + 1;
    }
    String::new()
}

/// The value of a key in the head of a text.
pub fn frontmatter_value(content: &str, key: &str) -> (r: String)
    ensures
        r@ == front_value(content@, key@),
{
    let all = chars(content);
    match strip_prefix(all.as_slice(), "---") {
        Some(rest) => match split_once(rest, "---") {
            Some((front, _)) => {
                let mut prefix = key.to_string();
                prefix.append(":");
                find_line_value(&split_lines(front), prefix.as_str())
            },
            None => String::new(),
        },
        None => String::new(),
    }
}

/// The first heading of a text.
pub open spec fn first_heading(list: Seq<Seq<char>>) -> Option<Seq<char>>
    decreases list.len(),
{
    if list.len() == 0 {
        None
    } else {
        match after_prefix(trimmed(list[0]), "# "@) {
            Some(title) => Some(trimmed(title)),
            None => first_heading(list.drop_first()),
        }
    }
}

/// The name of a skill: that in the head of its text, else its first heading, else its
/// identifier.
pub open spec fn skill_name(id: Seq<char>, content: Seq<char>) -> Seq<char> {
    if front_value(content, "name"@).len() > 0 {
        front_value(content, "name"@)
    } else {
        match first_heading(lines(content)) {
            Some(title) => if title.len() > 0 {
                title
            } else {
                id
            },
            None => id,
        }
    }
}

/// What a skill is for, by the head of its text.
pub open spec fn skill_description(content: Seq<char>) -> Seq<char> {
    if front_value(content, "description"@).len() > 0 {
        front_value(content, "description"@)
    } else {
        "Custom agent workflow skill."@
    }
}

fn find_heading(list: &Vec<&[char]>) -> (r: Option<String>)
    ensures
        match r {
            Some(title) => first_heading(slice_views(list@)) == Some(title@),
            None => first_heading(slice_views(list@)) is None,
        },
{
    let ghost all = slice_views(list@);
    let mut i: usize = 0;
    assert(all.skip(0) =~= all);
    while i < list.len()
        invariant
            i <= list@.len(),
            all == slice_views(list@),
            first_heading(all) == first_heading(all.skip(i as int)),
        decreases list@.len() - i,
    {
        let ghost rest = all.skip(i as int);
        assert(rest[0] == list@[i as int]@);
        assert(rest.drop_first() =~= all.skip(i + 1));
        if let Some(title) = strip_prefix(trim(list[i]), "# ") {
            return Some(string(trim(title)));
        }
        i = i + 1;
    }
    None
}

/// The name of a skill.
pub fn skill_name_from_content(id: &str, content: &str) -> (r: String)
    ensures
        r@ == skill_name(id@, content@),
{
    let name = frontmatter_value(content, "name");
    if !name.as_str().is_empty() {
        return name;
    }
    let all = chars(content);
    match find_heading(&split_lines(all.as_slice())) {
        Some(title) => if !title.as_str().is_empty() {
            title
        } else {
            id.to_string()
        },
        None => id.to_string(),
    }
}

/// What a skill is for.
pub fn skill_description_from_content(content: &str) -> (r: String)
    ensures
        r@ == skill_description(content@),
{
    let description = frontmatter_value(content, "description");
    if !description.as_str().is_empty() {
        return description;
    }
    "Custom agent workflow skill.".to_string()
}

/// A skill by the content of its file.
pub open spec fn skill_of(
    id: Seq<char>,
    path: Seq<char>,
    source: Seq<char>,
    origin: Seq<char>,
    content: Seq<char>,
) -> SkillView {
    SkillView {
        id,
        name: skill_name(id, content),
        description: skill_description(content),
        source,
        origin,
        path,
        content,
    }
}

/// A skill by the content of its file.
pub fn skill_with_text(id: &str, path: &str, source: &str, origin: &str, content: &str) -> (r:
    SkillTemplate)
    ensures
        r@ == skill_of(id@, path@, source@, origin@, content@),
{
    SkillTemplate {
        id: id.to_string(),
        name: skill_name_from_content(id, content),
        description: skill_description_from_content(content),
        source: source.to_string(),
        origin: origin.to_string(),
        path: path.to_string(),
        content: content.to_string(),
    }
}

/// A skill by the content of its file, if it could be read.
pub fn skill_from_file(
    id: &str,
    path: &str,
    source: &str,
    origin: &str,
    content: Option<&str>,
) -> (r: Option<SkillTemplate>)
    ensures
        match (r, content) {
            (Some(skill), Some(text)) => skill@ == skill_of(id@, path@, source@, origin@, text@),
            (None, None) => true,
            _ => false,
        },
{
    match content {
        Some(text) => Some(skill_with_text(id, path, source, origin, text)),
        None => None,
    }
}

/// An entry of the directory with the skills: its name, whether it is a directory with
/// a skill's file in it, the path of that file, and its content if it could be read.
pub struct SkillEntry {
    pub name: String,
    pub is_dir: bool,
    pub has_file: bool,
    pub path: String,
    pub content: Option<String>,
}

/// Where a skill comes from.
pub open spec fn skill_origin(id: Seq<char>) -> Seq<char> {
    if preset_ids().contains(id) {
        "preset"@
    } else {
        "custom"@
    }
}

/// The skill of an entry, if it holds one.
pub open spec fn entry_skill(e: SkillEntry) -> Option<SkillView> {
    match e.content {
        Some(text) => if e.is_dir && e.has_file && e.name@.len() > 0 {
            Some(skill_of(e.name@, e.path@, "file"@, skill_origin(e.name@), text@))
        } else {
            None
        },
        None => None,
    }
}

/// The skill with an identifier: that of the last entry which holds one.
pub open spec fn latest_skill(entries: Seq<SkillEntry>, id: Seq<char>) -> Option<SkillView>
    decreases entries.len(),
{
    if entries.len() == 0 {
        None
    } else {
        match entry_skill(entries.last()) {
            Some(skill) if skill.id == id => Some(skill),
            _ => latest_skill(entries.drop_last(), id),
        }
    }
}

/// The views of a list of skills.
pub open spec fn skill_views(list: Seq<SkillTemplate>) -> Seq<SkillView> {
    list.map_values(|s: SkillTemplate| s@)
}

/// The skill with an identifier in a list.
pub open spec fn find_skill(list: Seq<SkillView>, id: Seq<char>) -> Option<SkillView>
    decreases list.len(),
{
    if list.len() == 0 {
        None
    } else if list[0].id == id {
        Some(list[0])
    } else {
        find_skill(list.drop_first(), id)
    }
}

/// No two skills of a list have the same identifier.
pub open spec fn distinct_skills(list: Seq<SkillView>) -> bool {
    forall|i: int, j: int| 0 <= i < j < list.len() ==> (#[trigger] list[i]).id != (
    #[trigger] list[j]).id
}

proof fn lemma_find_skill(list: Seq<SkillView>, id: Seq<char>)
    ensures
        match find_skill(list, id) {
            Some(skill) => skill.id == id && list.contains(skill),
            None => forall|i: int| 0 <= i < list.len() ==> (#[trigger] list[i]).id != id,
        },
    decreases list.len(),
{
    if list.len() > 0 && list[0].id != id {
        let rest = list.drop_first();
        lemma_find_skill(rest, id);
        match find_skill(rest, id) {
            Some(skill) => {
                let at = choose|at: int| 0 <= at < rest.len() && rest[at] == skill;
                assert(list[at + 1] == skill);
            },
            None => {
                assert forall|i: int| 0 <= i < list.len() implies (#[trigger] list[i]).id != id by {
                    if i > 0 {
                        assert(rest[i - 1] == list[i]);
                    }
                }
            },
        }
    }
}

proof fn lemma_found_skill(list: Seq<SkillView>, i: int)
    requires
        0 <= i < list.len(),
        distinct_skills(list),
    ensures
        find_skill(list, list[i].id) == Some(list[i]),
{
    lemma_find_skill(list, list[i].id);
    let found = find_skill(list, list[i].id);
    match found {
        Some(skill) => {
            let at = choose|at: int| 0 <= at < list.len() && list[at] == skill;
            if at < i {
                assert(list[at].id != list[i].id);
            } else if i < at {
                assert(list[i].id != list[at].id);
            }
        },
        None => {
            assert(list[i].id != list[i].id);
        },
    }
}

/// After a skill was put into a list, in place of the one with its identifier or at
/// the end, it is found there, and every other skill as before.
proof fn lemma_put_skill(before: Seq<SkillView>, after: Seq<SkillView>, at: int, skill: SkillView)
    requires
        distinct_skills(before),
        0 <= at <= before.len(),
        forall|i: int| 0 <= i < before.len() && i != at ==> (#[trigger] before[i]).id != skill.id,
        at < before.len() ==> before[at].id == skill.id,
        after == if at < before.len() {
            before.update(at, skill)
        } else {
            before.push(skill)
        },
    ensures
        distinct_skills(after),
        find_skill(after, skill.id) == Some(skill),
        forall|id: Seq<char>|
            id != skill.id ==> #[trigger] find_skill(after, id) == find_skill(before, id),
{
    assert forall|i: int, j: int| 0 <= i < j < after.len() implies (#[trigger] after[i]).id != (
    #[trigger] after[j]).id by {
        if i < before.len() && j < before.len() {
            assert(before[i].id != before[j].id);
        }
    }
    assert(after[at] == skill);
    lemma_found_skill(after, at);
    assert forall|id: Seq<char>| id != skill.id implies #[trigger] find_skill(after, id)
        == find_skill(before, id) by {
        lemma_find_skill(after, id);
        lemma_find_skill(before, id);
        match find_skill(before, id) {
            Some(s) => {
                let k = choose|k: int| 0 <= k < before.len() && before[k] == s;
                assert(after[k] == s);
                lemma_found_skill(after, k);
            },
            None => {
                match find_skill(after, id) {
                    Some(s) => {
                        let k = choose|k: int| 0 <= k < after.len() && after[k] == s;
                        assert(before[k] == s);
                    },
                    None => {},
                }
            },
        }
    }
}

fn is_preset(id: &str) -> (r: bool)
    ensures
        r == preset_ids().contains(id@),
{
    proof {
        law_presets_have_content(id@);
    }
    default_skill_content(id).is_some()
}

fn put_skill(list: &mut Vec<SkillTemplate>, skill: SkillTemplate)
    requires
        distinct_skills(skill_views(old(list)@)),
    ensures
        distinct_skills(skill_views(final(list)@)),
        find_skill(skill_views(final(list)@), skill@.id) == Some(skill@),
        forall|id: Seq<char>|
            id != skill@.id ==> #[trigger] find_skill(skill_views(final(list)@), id) == find_skill(
                skill_views(old(list)@),
                id,
            ),
{
    let n: usize = list.len();
    let ghost before = skill_views(list@);
    let mut at: usize = 0;
    while at < n && !same(list[at].id.as_str(), skill.id.as_str())
        invariant
            at <= n,
            n == list@.len(),
            *list == *old(list),
            before == skill_views(list@),
            forall|i: int| 0 <= i < at ==> (#[trigger] before[i]).id != skill@.id,
        decreases n - at,
    {
        assert(before[at as int].id == list@[at as int].id@);
        at = at + 1;
    }
    proof {
        if at < n {
            assert(before[at as int].id == skill@.id);
            assert forall|i: int| 0 <= i < before.len() && i != at implies (#[trigger] before[i]).id
                != skill@.id by {
                if i > at {
                    assert(before[at as int].id != before[i].id);
                }
            }
        }
    }
    let ghost view = skill@;
    if at < n {
        list.set(at, skill);
        assert(skill_views(list@) =~= before.update(at as int, view));
    } else {
        list.push(skill);
        assert(skill_views(list@) =~= before.push(view));
    }
    proof {
        lemma_put_skill(before, skill_views(list@), at as int, view);
    }
}

/// The skills in a directory, by its entries.
pub fn load_skill_templates(entries: &Vec<SkillEntry>) -> (r: Vec<SkillTemplate>)
    ensures
        distinct_skills(skill_views(r@)),
        forall|id: Seq<char>| #[trigger]
            find_skill(skill_views(r@), id) == latest_skill(entries@, id),
{
    let mut list: Vec<SkillTemplate> = Vec::new();
    let mut i: usize = 0;
    assert(skill_views(list@) =~= seq![]);
    assert(entries@.take(0) =~= seq![]);
    while i < entries.len()
        invariant
            i <= entries@.len(),
            distinct_skills(skill_views(list@)),
            forall|id: Seq<char>| #[trigger]
                find_skill(skill_views(list@), id) == latest_skill(entries@.take(i as int), id),
        decreases entries@.len() - i,
    {
        let e = &entries[i];
        let ghost upto = entries@.take(i + 1);
        assert(upto.drop_last() =~= entries@.take(i as int));
        assert(upto.last() == *e);
        let content = match &e.content {
            Some(text) => Some(text.as_str()),
            None => None,
        };
        if e.is_dir && e.has_file && !e.name.as_str().is_empty() {
            let origin = if is_preset(e.name.as_str()) {
                "preset"
            } else {
                "custom"
            };
            let skill = skill_from_file(e.name.as_str(), e.path.as_str(), "file", origin, content);
            if let Some(skill) = skill {
                put_skill(&mut list, skill);
            }
        }
        i = i + 1;
    }
    assert(entries@.take(i as int) =~= entries@);
    list
}

/// The skills that are switched on: those of the settings, else those that are there
/// from the start.
pub open spec fn enabled_ids(chosen: Seq<Seq<char>>) -> Seq<Seq<char>> {
    if chosen.len() == 0 {
        preset_ids()
    } else {
        chosen
    }
}

/// The instructions of the skills with these identifiers, as far as there are such
/// skills.
pub open spec fn skill_blocks(ids: Seq<Seq<char>>, list: Seq<SkillView>) -> Seq<Seq<char>>
    decreases ids.len(),
{
    if ids.len() == 0 {
        seq![]
    } else {
        let before = skill_blocks(ids.drop_last(), list);
        match find_skill(list, ids.last()) {
            Some(skill) => before.push("## "@ + skill.name + "\n"@ + trimmed(skill.content)),
            None => before,
        }
    }
}

/// What a prompt begins with: the instructions of the skills that are switched on, if
/// there are any. `templates` are the skills, if they could be read.
pub open spec fn skill_prefix(
    enabled: bool,
    chosen: Seq<Seq<char>>,
    templates: Option<Seq<SkillView>>,
) -> Seq<char> {
    match templates {
        Some(list) if enabled && skill_blocks(enabled_ids(chosen), list).len() > 0 => {
            "已启用以下 Skills。回答和执行任务时必须按这些指令工作；只有当用户请求明显不相关时才忽略。\n\n"@
                + joined(skill_blocks(enabled_ids(chosen), list), "\n\n"@) + "\n\n---\n\n"@
        },
        _ => seq![],
    }
}

fn look_up<'a>(list: &'a Vec<SkillTemplate>, id: &str) -> (r: Option<&'a SkillTemplate>)
    ensures
        match r {
            Some(skill) => find_skill(skill_views(list@), id@) == Some(skill@),
            None => find_skill(skill_views(list@), id@) is None,
        },
{
    let ghost all = skill_views(list@);
    let mut i: usize = 0;
    assert(all.skip(0) =~= all);
    while i < list.len()
        invariant
            i <= list@.len(),
            all == skill_views(list@),
            find_skill(all, id@) == find_skill(all.skip(i as int), id@),
        decreases list@.len() - i,
    {
        let ghost rest = all.skip(i as int);
        assert(rest[0] == list@[i as int]@);
        assert(rest.drop_first() =~= all.skip(i + 1));
        if same(list[i].id.as_str(), id) {
            return Some(&list[i]);
        }
        i = i + 1;
    }
    None
}

/// What a prompt begins with.
pub fn build_skill_prompt_prefix(
    settings: &Settings,
    templates: Option<&Vec<SkillTemplate>>,
) -> (r: String)
    ensures
        r@ == skill_prefix(
            settings.skills_enabled,
            views(settings.enabled_skills@),
            match templates {
                Some(list) => Some(skill_views(list@)),
                None => None,
            },
        ),
{
    broadcast use lemma_views_push;

    if !settings.skills_enabled {
        return String::new();
    }
    let list = match templates {
        Some(list) => list,
        None => {
            return String::new();
        },
    };
    let ids = if settings.enabled_skills.len() == 0 {
        default_skill_ids()
    } else {
        clone_list(&settings.enabled_skills)
    };
    let ghost all = enabled_ids(views(settings.enabled_skills@));
    assert(views(ids@) =~= all);
    let mut blocks: Vec<String> = Vec::new();
    let mut i: usize = 0;
    assert(views(blocks@) =~= seq![]);
    assert(all.take(0) =~= seq![]);
    while i < ids.len()
        invariant
            i <= ids@.len(),
            views(ids@) == all,
            views(blocks@) == skill_blocks(all.take(i as int), skill_views(list@)),
        decreases ids@.len() - i,
    {
        let ghost upto = all.take(i + 1);
        assert(upto.drop_last() =~= all.take(i as int));
        assert(upto.last() == ids@[i as int]@);
        if let Some(skill) = look_up(list, ids[i].as_str()) {
            let mut block = "## ".to_string();
            block.append(skill.name.as_str());
            block.append("\n");
            block.append(trim_str(skill.content.as_str()).as_str());
            blocks.push(block);
        }
        i = i + 1;
    }
    assert(all.take(i as int) =~= all);
    if blocks.len() == 0 {
        return String::new();
    }
    let mut out =
        "已启用以下 Skills。回答和执行任务时必须按这些指令工作；只有当用户请求明显不相关时才忽略。\n\n".to_string();
    out.append(join(&blocks, "\n\n").as_str());
    out.append("\n\n---\n\n");
    out
}

proof fn lemma_block_of(ids: Seq<Seq<char>>, list: Seq<SkillView>, k: int) -> (at: int)
    requires
        0 <= k < ids.len(),
        find_skill(list, ids[k]) is Some,
    ensures
        0 <= at < skill_blocks(ids, list).len(),
        ({
            let skill = find_skill(list, ids[k])->0;
            skill_blocks(ids, list)[at] == "## "@ + skill.name + "\n"@ + trimmed(skill.content)
        }),
    decreases ids.len(),
{
    let front = ids.drop_last();
    let before = skill_blocks(front, list);
    if k == ids.len() - 1 {
        before.len() as int
    } else {
        assert(front[k] == ids[k]);
        lemma_block_of(front, list, k)
    }
}

/// Each text of a list stands in the joined text.
proof fn lemma_joined_holds(list: Seq<Seq<char>>, sep: Seq<char>, at: int) -> (pos: int)
    requires
        0 <= at < list.len(),
    ensures
        matches_at(joined(list, sep), list[at], pos),
    decreases list.len(),
{
    let all = joined(list, sep);
    if list.len() == 1 {
        assert(all.subrange(0, all.len() as int) =~= list[0]);
        0
    } else {
        let front = joined(list.drop_last(), sep);
        if at == list.len() - 1 {
            let pos = (front.len() + sep.len()) as int;
            assert(all.subrange(pos, pos + list[at].len()) =~= list[at]);
            pos
        } else {
            let pos = lemma_joined_holds(list.drop_last(), sep, at);
            assert(list.drop_last()[at] == list[at]);
            assert(all.subrange(pos, pos + list[at].len()) =~= front.subrange(
                pos,
                pos + list[at].len(),
            ));
            pos
        }
    }
}

/// The instructions of every skill that is switched on and that can be read reach the
/// agent whole, but for the white space around them.
pub proof fn law_enabled_skills_reach_the_prompt(
    chosen: Seq<Seq<char>>,
    list: Seq<SkillView>,
    id: Seq<char>,
)
    requires
        enabled_ids(chosen).contains(id),
        find_skill(list, id) is Some,
    ensures
        contains_text(
            skill_prefix(true, chosen, Some(list)),
            trimmed(find_skill(list, id)->0.content),
        ),
{
    let ids = enabled_ids(chosen);
    let skill = find_skill(list, id)->0;
    let k = choose|k: int| 0 <= k < ids.len() && ids[k] == id;
    let at = lemma_block_of(ids, list, k);
    let blocks = skill_blocks(ids, list);
    let pos = lemma_joined_holds(blocks, "\n\n"@, at);
    let head =
        "已启用以下 Skills。回答和执行任务时必须按这些指令工作；只有当用户请求明显不相关时才忽略。\n\n"@;
    let title = "## "@ + skill.name + "\n"@;
    let text = trimmed(skill.content);
    let all = skill_prefix(true, chosen, Some(list));
    let middle = joined(blocks, "\n\n"@);
    let from = head.len() + pos + title.len();
    assert(middle.subrange(pos, pos + blocks[at].len()) == blocks[at]);
    assert forall|i: int| 0 <= i < text.len() implies all[from + i] == text[i] by {
        assert(all[from + i] == middle[pos + title.len() + i]);
        assert(middle[pos + title.len() + i] == blocks[at][title.len() + i]);
    }
    assert(all.subrange(from, from + text.len()) =~= text);
    assert(matches_at(all, text, from));
}

/// The value under a key is that of the first line that begins with the key, without the
/// white space and the quotes around it; the lines behind it make no difference.
pub proof fn law_values_stand_on_their_line(list: Seq<Seq<char>>, key: Seq<char>, k: int)
    ensures
        0 <= k < list.len() && starts(trimmed(list[k]), key) && (forall|j: int|
            0 <= j < k ==> !starts(trimmed(#[trigger] list[j]), key)) ==> line_value(list, key)
            == trim_of(trimmed(trimmed(list[k]).skip(key.len() as int)), CharClass::OneOf("\"")),
        (forall|j: int| 0 <= j < list.len() ==> !starts(trimmed(#[trigger] list[j]), key))
            ==> line_value(list, key).len() == 0,
    decreases list.len(),
{
    if list.len() > 0 {
        let rest = list.drop_first();
        law_values_stand_on_their_line(rest, key, k - 1);
        assert(forall|j: int| 0 <= j < rest.len() ==> #[trigger] rest[j] == list[j + 1]);
    }
}

/// The title is that of the first line that begins as a heading.
pub proof fn law_titles_stand_on_the_first_heading(list: Seq<Seq<char>>, k: int)
    ensures
        0 <= k < list.len() && starts(trimmed(list[k]), "# "@) && (forall|j: int|
            0 <= j < k ==> !starts(trimmed(#[trigger] list[j]), "# "@)) ==> first_heading(list)
            == Some(trimmed(trimmed(list[k]).skip(2))),
        (forall|j: int| 0 <= j < list.len() ==> !starts(trimmed(#[trigger] list[j]), "# "@))
            ==> first_heading(list) is None,
    decreases list.len(),
{
    reveal_strlit("# ");
    if list.len() > 0 {
        let rest = list.drop_first();
        law_titles_stand_on_the_first_heading(rest, k - 1);
        assert(forall|j: int| 0 <= j < rest.len() ==> #[trigger] rest[j] == list[j + 1]);
    }
}

/// The front matter stands between the first two rules, where the text begins with one.
#[verifier::rlimit(40)]
pub proof fn law_front_matter_stands_between_rules(
    front: Seq<char>,
    rest: Seq<char>,
    content: Seq<char>,
    key: Seq<char>,
)
    requires
        !contains_text(front + "--"@, "---"@),
    ensures
        front_matter("---"@ + front + "---"@ + rest) == Some(front),
        front_value("---"@ + front + "---"@ + rest, key) == line_value(lines(front), key + ":"@),
        !starts(content, "---"@) ==> front_matter(content) is None,
        !starts(content, "---"@) ==> front_value(content, key).len() == 0,
        front_matter("---"@ + front) is None,
{
    reveal_strlit("---");
    reveal_strlit("--");
    let rule = "---"@;
    let all = rule + front + rule + rest;
    assert(all.subrange(0, 3) =~= rule);
    let tail = all.skip(3);
    assert(tail =~= front + rule + rest);
    let n = front.len() as int;
    assert(rule.drop_last() =~= "--"@);
    lemma_found_behind(front, rule, rest);
    assert(tail.skip(n + 3) =~= rest);
    assert(tail.take(n) =~= front);
    let open = rule + front;
    assert(open.subrange(0, 3) =~= rule);
    assert(open.skip(3) =~= front);
    lemma_find(front, rule);
    if let Some(i) = find(front, rule) {
        let near = front + "--"@;
        assert(near.subrange(i, i + 3) =~= front.subrange(i, i + 3));
        assert(matches_at(near, rule, i));
    }
}

/// A skill is named by its front matter, else by its heading, else by its identifier; and it
/// is described by its front matter.
pub proof fn law_skills_name_themselves(id: Seq<char>, content: Seq<char>)
    ensures
        ({
            let named = front_value(content, "name"@);
            let told = front_value(content, "description"@);
            let title = first_heading(lines(content));
            &&& named.len() > 0 ==> skill_name(id, content) == named
            &&& named.len() == 0 && title is Some && title->0.len() > 0 ==> skill_name(id, content)
                == title->0
            &&& named.len() == 0 && (title is None || title->0.len() == 0) ==> skill_name(
                id,
                content,
            ) == id
            &&& told.len() > 0 ==> skill_description(content) == told
            &&& told.len() == 0 ==> skill_description(content) == "Custom agent workflow skill."@
        }),
{
}

/// An entry is a skill exactly where it is a directory with a name and a file in it that
/// can be read; the skill has the directory's name for its identifier.
pub proof fn law_skills_are_directories_with_a_file(e: SkillEntry)
    ensures
        entry_skill(e) is Some == (e.is_dir && e.has_file && e.name@.len() > 0 && e.content is Some),
        entry_skill(e) matches Some(skill) ==> {
            &&& skill.id == e.name@
            &&& skill.path == e.path@
            &&& skill.content == e.content->0@
            &&& skill.source == "file"@
            &&& preset_ids().contains(skill.id) ==> skill.origin == "preset"@
            &&& !preset_ids().contains(skill.id) ==> skill.origin == "custom"@
            &&& skill.name == skill_name(e.name@, e.content->0@)
            &&& skill.description == skill_description(e.content->0@)
        },
{
}

/// These are the skills that come with the program.
pub proof fn law_presets_are_known_by_name(id: Seq<char>)
    ensures
        preset_ids().contains(id) == (id == "superpowers"@ || id == "ui-ux-design"@ || id
            == "cron-scheduler"@ || id == "skill-downloader"@),
{
    let ids = preset_ids();
    assert(ids[0] == "superpowers"@ && ids[1] == "ui-ux-design"@ && ids[2] == "cron-scheduler"@
        && ids[3] == "skill-downloader"@);
}

/// Of several entries with one identifier the last one counts.
pub proof fn law_the_last_entry_counts(entries: Seq<SkillEntry>, id: Seq<char>, k: int)
    ensures
        0 <= k < entries.len() && (entry_skill(entries[k]) matches Some(skill) && skill.id == id)
            && (forall|j: int|
            k < j < entries.len() ==> !(entry_skill(#[trigger] entries[j]) matches Some(skill)
                && skill.id == id)) ==> latest_skill(entries, id) == entry_skill(entries[k]),
        (forall|j: int|
            0 <= j < entries.len() ==> !(entry_skill(#[trigger] entries[j]) matches Some(skill)
                && skill.id == id)) ==> latest_skill(entries, id) is None,
    decreases entries.len(),
{
    if entries.len() > 0 {
        law_the_last_entry_counts(entries.drop_last(), id, k);
        assert(entries.last() == entries[entries.len() - 1]);
    }
}

/// A skill is found by its identifier: the first one that has it.
pub proof fn law_skills_are_found_by_identifier(list: Seq<SkillView>, id: Seq<char>, k: int)
    ensures
        0 <= k < list.len() && list[k].id == id && (forall|j: int|
            0 <= j < k ==> (#[trigger] list[j]).id != id) ==> find_skill(list, id) == Some(list[k]),
        (forall|j: int| 0 <= j < list.len() ==> (#[trigger] list[j]).id != id) ==> find_skill(
            list,
            id,
        ) is None,
    decreases list.len(),
{
    if list.len() > 0 {
        let rest = list.drop_first();
        law_skills_are_found_by_identifier(rest, id, k - 1);
        assert(forall|j: int| 0 <= j < rest.len() ==> #[trigger] rest[j] == list[j + 1]);
    }
}

/// The skills are given in the order in which they are chosen, each under its name; one
/// that is not there is passed over.
pub proof fn law_skills_are_given_as_chosen(
    a: Seq<Seq<char>>,
    b: Seq<Seq<char>>,
    list: Seq<SkillView>,
    id: Seq<char>,
)
    ensures
        skill_blocks(a + b, list) == skill_blocks(a, list) + skill_blocks(b, list),
        match find_skill(list, id) {
            Some(skill) => skill_blocks(seq![id], list) == seq![
                "## "@ + skill.name + "\n"@ + trimmed(skill.content),
            ],
            None => skill_blocks(seq![id], list).len() == 0,
        },
        enabled_ids(a + seq![id]) == a + seq![id],
        enabled_ids(seq![]) == preset_ids(),
    decreases b.len(),
{
    assert(seq![id].drop_last() =~= seq![]);
    assert(skill_blocks(seq![id].drop_last(), list) =~= seq![]);
    if let Some(skill) = find_skill(list, id) {
        assert(skill_blocks(seq![id], list) =~= seq![
            "## "@ + skill.name + "\n"@ + trimmed(skill.content),
        ]);
    }
    if b.len() == 0 {
        assert(a + b =~= a);
        assert(skill_blocks(b, list) =~= seq![]);
    } else {
        law_skills_are_given_as_chosen(a, b.drop_last(), list, id);
        assert((a + b).drop_last() =~= a + b.drop_last());
        assert(skill_blocks(a + b, list) =~= skill_blocks(a, list) + skill_blocks(b, list));
    }
}

/// The prompt gets the skills, parted by blank lines, where they are switched on and there
/// are some; otherwise it gets nothing.
pub proof fn law_skills_are_given_if_switched_on(chosen: Seq<Seq<char>>, list: Seq<SkillView>)
    ensures
        skill_prefix(false, chosen, Some(list)).len() == 0,
        skill_prefix(true, chosen, None).len() == 0,
        ({
            let blocks = skill_blocks(enabled_ids(chosen), list);
            &&& blocks.len() == 0 ==> skill_prefix(true, chosen, Some(list)).len() == 0
            &&& blocks.len() > 0 ==> ends(
                skill_prefix(true, chosen, Some(list)),
                joined(blocks, "\n\n"@) + "\n\n---\n\n"@,
            )
        }),
{
    let blocks = skill_blocks(enabled_ids(chosen), list);
    if blocks.len() > 0 {
        let prefix = skill_prefix(true, chosen, Some(list));
        let tail = joined(blocks, "\n\n"@) + "\n\n---\n\n"@;
        assert(prefix.subrange(prefix.len() - tail.len(), prefix.len() as int) =~= tail);
    }
}

} // verus!
