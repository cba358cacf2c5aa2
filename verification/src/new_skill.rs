//! New skills: made from what the user types in, or copied from a directory.

use vstd::prelude::*;
use crate::search::{
    after_prefix, contains_text, ends, find, law_texts_hold_their_parts, lemma_find, matches_at,
    starts,
};
use crate::skills::{
    default_skill_content, default_skill_ids, front_matter, front_value, law_presets_have_content,
    line_value, preset_content, preset_ids, skill_description, skill_name, skill_of,
    skill_with_text, SkillEntry, SkillImportActionResult, SkillTemplate, SkillTemplateActionResult,
};
use crate::slug::{alphanumeric, is_id, is_slug, law_slugs_are_plain, sanitize_id, slug_or};
use crate::split::lines;
use crate::text::{
    is_blank, lemma_run_len_is, lemma_tail_len_is, lemma_trim_of, lemma_trim_of_fixed,
    lemma_trim_of_twice, lowered, trim_of, trim_start_of, trim_str, trimmed, views, white,
    CharClass,
};

verus! {

/// A skill before it is written to its file.
pub struct SkillDraft {
    pub id: String,
    pub name: String,
    pub description: String,
    pub content: String,
}

/// The text of a skill without instructions.
pub const EMPTY_BODY: &'static str = "## Overview\n\nDescribe the reusable workflow, trigger conditions, and verification steps for this skill.\n";

/// The text of a skill's file.
pub open spec fn skill_text(
    id: Seq<char>,
    description: Seq<char>,
    name: Seq<char>,
    body: Seq<char>,
) -> Seq<char> {
    "---\nname: "@ + id + "\ndescription: "@ + description + "\n---\n\n# "@ + name + "\n\n"@ + body
}

/// The name that is shown: what was typed in, or the identifier.
pub open spec fn shown_name(id: Seq<char>, name: Seq<char>) -> Seq<char> {
    if trimmed(name).len() == 0 {
        id
    } else {
        trimmed(name)
    }
}

/// What the skill is for: what was typed in, or a sentence with its name.
pub open spec fn shown_description(shown: Seq<char>, description: Seq<char>) -> Seq<char> {
    if trimmed(description).len() == 0 {
        "Use when "@ + shown + " guidance is needed."@
    } else {
        trimmed(description)
    }
}

/// The instructions: what was typed in, or a text to be filled in.
pub open spec fn shown_body(content: Seq<char>) -> Seq<char> {
    if trimmed(content).len() == 0 {
        EMPTY_BODY@
    } else {
        content
    }
}

/// The draft is that of a skill with an identifier.
pub open spec fn is_draft(
    draft: SkillDraft,
    id: Seq<char>,
    name: Seq<char>,
    description: Seq<char>,
    content: Seq<char>,
) -> bool {
    let shown = shown_name(id, name);
    let what = shown_description(shown, description);
    &&& draft.id@ == id
    &&& draft.name@ == shown
    &&& draft.description@ == what
    &&& draft.content@ == skill_text(id, what, shown, shown_body(content))
}

/// Drafts a skill with an identifier.
pub fn draft_skill(id: &str, name: &str, description: &str, content: &str) -> (r: SkillDraft)
    ensures
        is_draft(r, id@, name@, description@, content@),
{
    let shown = if is_blank(name) {
        id.to_string()
    } else {
        trim_str(name)
    };
    let what = if is_blank(description) {
        let mut out = "Use when ".to_string();
        out.append(shown.as_str());
        out.append(" guidance is needed.");
        out
    } else {
        trim_str(description)
    };
    let mut text = "---\nname: ".to_string();
    text.append(id);
    text.append("\ndescription: ");
    text.append(what.as_str());
    text.append("\n---\n\n# ");
    text.append(shown.as_str());
    text.append("\n\n");
    if is_blank(content) {
        text.append(EMPTY_BODY);
    } else {
        text.append(content);
    }
    SkillDraft { id: id.to_string(), name: shown, description: what, content: text }
}

/// The identifier of a new skill: made from the one that was typed in, else from its
/// name.
pub open spec fn new_id(skill_id: Seq<char>, name: Seq<char>) -> Seq<char> {
    slug_or(
        lowered(
            trimmed(
                if trimmed(skill_id).len() == 0 {
                    name
                } else {
                    skill_id
                },
            ),
        ),
        "custom-skill"@,
    )
}

/// Drafts a skill from what the user typed in.
pub fn create_skill_template(skill_id: &str, name: &str, description: &str, content: &str) -> (r:
    SkillDraft)
    ensures
        is_draft(r, new_id(skill_id@, name@), name@, description@, content@),
        is_id(r.id@),
{
    proof {
        lemma_usual_ids();
    }
    let id = sanitize_id(
        if is_blank(skill_id) {
            name
        } else {
            skill_id
        },
        "custom-skill",
    );
    draft_skill(id.as_str(), name, description, content)
}

/// The answer when a draft was written to its file.
pub fn created_skill(draft: SkillDraft, path: &str, skill_root: &str) -> (r:
    SkillTemplateActionResult)
    ensures
        r.ok,
        r.error@.len() == 0,
        r.skill matches Some(skill) && {
            &&& skill.id@ == draft.id@
            &&& skill.name@ == draft.name@
            &&& skill.description@ == draft.description@
            &&& skill.content@ == draft.content@
            &&& skill.source@ == "file"@
            &&& skill.origin@ == "custom"@
            &&& skill.path@ == path@
        },
        r.skill_root@ == skill_root@,
        r.path@ == path@,
{
    SkillTemplateActionResult {
        ok: true,
        error: String::new(),
        skill: Some(
            SkillTemplate {
                id: draft.id,
                name: draft.name,
                description: draft.description,
                source: "file".to_string(),
                origin: "custom".to_string(),
                path: path.to_string(),
                content: draft.content,
            },
        ),
        skill_root: skill_root.to_string(),
        path: path.to_string(),
    }
}

/// The identifier of a skill that is copied from a directory.
pub fn imported_id(directory: &str) -> (r: String)
    ensures
        r@ == slug_or(lowered(trimmed(directory@)), "imported-skill"@),
        is_id(r@),
{
    proof {
        lemma_usual_ids();
    }
    sanitize_id(directory, "imported-skill")
}

/// A skill that is copied from a directory: its identifier and its text.
pub struct SkillCopy {
    pub id: String,
    pub content: String,
}

/// The identifiers and texts of skills.
pub open spec fn copy_views(list: Seq<SkillCopy>) -> Seq<(Seq<char>, Seq<char>)> {
    Seq::new(list.len(), |i: int| (list[i].id@, list[i].content@))
}

/// The skills of a list that have a text from the start and whose file is not there, with
/// that text.
pub open spec fn missing_presets(ids: Seq<Seq<char>>, present: Seq<bool>) -> Seq<
    (Seq<char>, Seq<char>),
>
    decreases ids.len(),
{
    if ids.len() == 0 {
        seq![]
    } else {
        let before = missing_presets(ids.drop_last(), present.drop_last());
        match preset_content(ids.last()) {
            Some(content) if !present.last() => before.push((ids.last(), content)),
            _ => before,
        }
    }
}

/// The skills that are there from the start and whose files are to be written. `present`
/// tells of each of them, in their order, whether its file is there.
pub fn missing_skills(present: &Vec<bool>) -> (r: Vec<SkillCopy>)
    requires
        present@.len() == preset_ids().len(),
    ensures
        copy_views(r@) == missing_presets(preset_ids(), present@),
{
    let ids = default_skill_ids();
    let ghost all = preset_ids();
    let mut out: Vec<SkillCopy> = Vec::new();
    let mut i: usize = 0;
    assert(ids@.len() == views(ids@).len());
    assert(all.take(0) =~= seq![]);
    assert(copy_views(out@) =~= missing_presets(all.take(0), present@.take(0)));
    while i < ids.len()
        invariant
            i <= ids@.len(),
            ids@.len() == present@.len(),
            all == views(ids@),
            copy_views(out@) == missing_presets(all.take(i as int), present@.take(i as int)),
        decreases ids@.len() - i,
    {
        let ghost before = out@;
        let ghost upto = all.take(i + 1);
        let ghost flags = present@.take(i + 1);
        assert(upto.drop_last() =~= all.take(i as int));
        assert(flags.drop_last() =~= present@.take(i as int));
        assert(upto.last() == ids@[i as int]@);
        assert(flags.last() == present@[i as int]);
        if let Some(content) = default_skill_content(ids[i].as_str()) {
            if !present[i] {
                out.push(SkillCopy { id: ids[i].clone(), content: content.to_string() });
                assert(copy_views(out@) =~= copy_views(before).push(
                    (ids@[i as int]@, content@),
                ));
            }
        }
        i = i + 1;
    }
    assert(all.take(i as int) =~= all);
    assert(present@.take(i as int) =~= present@);
    out
}

/// A skill that is there from the start is written if its file is not there, and only
/// then, with its text.
pub proof fn law_missing_skills_are_written(present: Seq<bool>, k: int)
    requires
        present.len() == preset_ids().len(),
        0 <= k < present.len(),
    ensures
        preset_content(preset_ids()[k]) matches Some(content) && missing_presets(
            preset_ids(),
            present,
        ).contains((preset_ids()[k], content)) == !present[k],
{
    let ids = preset_ids();
    let id = ids[k];
    assert(ids.contains(id));
    law_presets_have_content(id);
    lemma_preset_ids_differ();
    lemma_missing(ids, present, k);
}

/// The identifiers of the skills that are there from the start differ.
proof fn lemma_preset_ids_differ()
    ensures
        forall|i: int, j: int|
            0 <= i < j < preset_ids().len() ==> #[trigger] preset_ids()[i]
                != #[trigger] preset_ids()[j],
{
    reveal_strlit("superpowers");
    reveal_strlit("ui-ux-design");
    reveal_strlit("cron-scheduler");
    reveal_strlit("skill-downloader");
    assert("superpowers"@.len() == 11);
    assert("ui-ux-design"@.len() == 12);
    assert("cron-scheduler"@.len() == 14);
    assert("skill-downloader"@.len() == 16);
}

proof fn lemma_missing(ids: Seq<Seq<char>>, present: Seq<bool>, k: int)
    requires
        ids.len() == present.len(),
        0 <= k < ids.len(),
        forall|i: int, j: int|
            0 <= i < j < ids.len() ==> #[trigger] ids[i] != #[trigger] ids[j],
        preset_content(ids[k]) is Some,
    ensures
        missing_presets(ids, present).contains((ids[k], preset_content(ids[k])->0)) == !present[k],
    decreases ids.len(),
{
    let pair = (ids[k], preset_content(ids[k])->0);
    let front = ids.drop_last();
    let flags = present.drop_last();
    let before = missing_presets(front, flags);
    let after = missing_presets(ids, present);
    if k < front.len() {
        lemma_missing(front, flags, k);
        if before.contains(pair) {
            let i = choose|i: int| 0 <= i < before.len() && before[i] == pair;
            assert(after[i] == pair);
        }
        if after.contains(pair) {
            let i = choose|i: int| 0 <= i < after.len() && after[i] == pair;
            assert(ids.last() == ids[ids.len() - 1]);
            assert(ids[k] != ids[ids.len() - 1]);
            assert(i < before.len());
            assert(before[i] == pair);
        }
    } else {
        lemma_missing_within(front, flags);
        if !present[k] {
            assert(after.last() == pair);
            assert(after[before.len() as int] == pair);
        } else if after.contains(pair) {
            let i = choose|i: int| 0 <= i < before.len() && before[i] == pair;
            assert(front.contains(before[i].0));
            let j = choose|j: int| 0 <= j < front.len() && front[j] == ids[k];
            assert(ids[j] == front[j]);
        }
    }
}

/// What is missing of a list is of that list.
proof fn lemma_missing_within(ids: Seq<Seq<char>>, present: Seq<bool>)
    ensures
        forall|i: int|
            0 <= i < missing_presets(ids, present).len() ==> ids.contains(
                (#[trigger] missing_presets(ids, present)[i]).0,
            ),
    decreases ids.len(),
{
    if ids.len() > 0 {
        let front = ids.drop_last();
        lemma_missing_within(front, present.drop_last());
        let before = missing_presets(front, present.drop_last());
        let after = missing_presets(ids, present);
        assert forall|i: int| 0 <= i < after.len() implies ids.contains((#[trigger] after[i]).0) by {
            if i < before.len() {
                assert(after[i] == before[i]);
                assert(front.contains(before[i].0));
                let j = choose|j: int| 0 <= j < front.len() && front[j] == before[i].0;
                assert(ids[j] == front[j]);
            } else {
                assert(ids[ids.len() - 1] == after[i].0);
            }
        }
    }
}

/// Says under which identifier the skill of an entry is copied: none is where the entry
/// is no directory with a skill's file in it that can be read.
pub fn import_entry(e: &SkillEntry) -> (r: Option<SkillCopy>)
    ensures
        r is Some == (e.is_dir && e.has_file && e.content is Some),
        r matches Some(copy) ==> {
            &&& copy.id@ == slug_or(lowered(trimmed(e.name@)), "imported-skill"@)
            &&& is_id(copy.id@)
            &&& copy.content@ == e.content->0@
        },
{
    match &e.content {
        Some(content) if e.is_dir && e.has_file => Some(
            SkillCopy { id: imported_id(e.name.as_str()), content: content.clone() },
        ),
        _ => None,
    }
}

/// A skill that was copied to a path.
pub fn imported_skill(id: &str, path: &str, content: &str) -> (r: SkillTemplate)
    ensures
        r@ == skill_of(id@, path@, "file"@, "custom"@, content@),
{
    skill_with_text(id, path, "file", "custom", content)
}

/// What is answered where there is nothing to copy from.
pub const NO_SOURCE: &'static str = "Source directory does not exist";

/// The answer when skills were copied, or where there was nothing to copy from.
pub fn import_skill_directory(exists: bool, skills: Vec<SkillTemplate>, skill_root: &str) -> (r:
    Result<SkillImportActionResult, String>)
    ensures
        r is Ok == exists,
        r matches Err(e) ==> e@ == NO_SOURCE@,
        r matches Ok(answer) ==> {
            &&& answer.ok
            &&& answer.error@.len() == 0
            &&& answer.skills == skills
            &&& answer.skill_root@ == skill_root@
            &&& answer.path@ == skill_root@
        },
{
    if !exists {
        return Err(NO_SOURCE.to_string());
    }
    Ok(
        SkillImportActionResult {
            ok: true,
            error: String::new(),
            skills,
            skill_root: skill_root.to_string(),
            path: skill_root.to_string(),
        },
    )
}

/// The head of a skill's file, with what comes behind the identifier.
spec fn headed(id: Seq<char>, tail: Seq<char>) -> Seq<char> {
    "\nname: "@ + id + "\ndescription: "@ + tail
}

/// No three hyphens stand in the head before what comes behind the identifier.
proof fn lemma_no_early_end(id: Seq<char>, tail: Seq<char>, j: int)
    requires
        is_slug(id),
        id.len() > 0,
        0 <= j < 7 + id.len() + 14,
    ensures
        !matches_at(headed(id, tail), "---"@, j),
{
    reveal_strlit("\nname: ");
    reveal_strlit("\ndescription: ");
    reveal_strlit("---");
    let s = headed(id, tail);
    if matches_at(s, "---"@, j) {
        let piece = s.subrange(j, j + 3);
        assert(piece[0] == '-' && piece[1] == '-');
        assert(s[j] == '-');
        assert(s[j + 1] == '-');
        if j < 7 {
            assert(s[j] == "\nname: "@[j]);
        } else if j < 7 + id.len() {
            assert(s[j] == id[j - 7]);
            if j + 1 < 7 + id.len() {
                assert(s[j + 1] == id[j + 1 - 7]);
            } else {
                assert(id.last() == '-');
            }
        } else {
            assert(s[j] == "\ndescription: "@[j - 7 - id.len()]);
        }
    }
}

/// The first two lines of a head.
proof fn lemma_head_lines(id: Seq<char>, tail: Seq<char>)
    requires
        is_slug(id),
        id.len() > 0,
    ensures
        lines(headed(id, tail)) == seq![Seq::<char>::empty(), "name: "@ + id] + lines(
            "description: "@ + tail,
        ),
{
    reveal_strlit("\nname: ");
    reveal_strlit("name: ");
    reveal_strlit("description: ");
    reveal_strlit("\ndescription: ");
    reveal_strlit("\n");
    let class = CharClass::OneOf("\n");
    let s = headed(id, tail);
    assert("\n"@[0] == '\n');
    assert(class.holds('\n'));
    assert(s[0] == '\n');
    lemma_run_len_is(s, class, false, 0);
    assert(s.take(0) =~= seq![]);
    let rest = s.skip(1);
    let line = "name: "@ + id;
    let n = line.len();
    assert forall|i: int| 0 <= i < n implies !class.holds(#[trigger] rest[i]) by {
        if i < 6 {
            assert(rest[i] == "name: "@[i]);
        } else {
            assert(rest[i] == id[i - 6]);
        }
    }
    assert(rest[n as int] == "\ndescription: "@[0]);
    lemma_run_len_is(rest, class, false, n);
    assert(rest.take(n as int) =~= line);
    assert(line.last() == id.last());
    assert(rest.skip(n as int + 1) =~= "description: "@ + tail);
    assert(lines(rest) == seq![line] + lines("description: "@ + tail));
    assert(lines(s) == seq![Seq::<char>::empty()] + lines(rest));
    assert(lines(s) =~= seq![Seq::<char>::empty(), line] + lines("description: "@ + tail));
}

/// The value behind a key and a space.
proof fn lemma_value(key: Seq<char>, value: Seq<char>)
    requires
        key.len() > 0,
        !white(key[0]),
        value.len() > 0,
        !white(value[0]),
        !white(value.last()),
        value[0] != '"',
        value.last() != '"',
    ensures
        after_prefix(trimmed(key + " "@ + value), key) == Some(" "@ + value),
        trim_of(trimmed(" "@ + value), CharClass::OneOf("\"")) == value,
{
    reveal_strlit(" ");
    reveal_strlit("\"");
    let line = key + " "@ + value;
    assert(line[0] == key[0]);
    assert(line.last() == value.last());
    lemma_trim_of_fixed(line, CharClass::White);
    assert(line.subrange(0, key.len() as int) =~= key);
    assert(line.skip(key.len() as int) =~= " "@ + value);
    let v = " "@ + value;
    assert(v[0] == ' ');
    assert(v[1] == value[0]);
    lemma_run_len_is(v, CharClass::White, true, 1);
    assert(v.skip(1) =~= value);
    assert(trim_start_of(v, CharClass::White) == value);
    lemma_tail_len_is(value, CharClass::White, 0);
    assert(trimmed(v) =~= value);
    assert(!CharClass::OneOf("\"").holds(value[0])) by {
        assert("\""@.len() == 1);
    }
    assert(!CharClass::OneOf("\"").holds(value.last())) by {
        assert("\""@.len() == 1);
    }
    lemma_trim_of_fixed(value, CharClass::OneOf("\""));
}

/// The head of a skill's text, as far as what comes behind the identifier.
proof fn lemma_front(
    id: Seq<char>,
    description: Seq<char>,
    name: Seq<char>,
    body: Seq<char>,
) -> (tail: Seq<char>)
    requires
        is_slug(id),
        id.len() > 0,
    ensures
        front_matter(skill_text(id, description, name, body)) == Some(headed(id, tail)),
        !contains_text(description, "---"@) ==> tail == description + "\n"@,
{
    reveal_strlit("---\nname: ");
    reveal_strlit("\nname: ");
    reveal_strlit("\ndescription: ");
    reveal_strlit("\n---\n\n# ");
    reveal_strlit("---");
    reveal_strlit("\n");
    let text = skill_text(id, description, name, body);
    assert(text.subrange(0, 3) =~= "---"@);
    let rest = text.skip(3);
    let behind = description + "\n---\n\n# "@ + name + "\n\n"@ + body;
    assert(rest =~= headed(id, behind));
    let m = 7 + id.len() + 14;
    let end = m + description.len() + 1;
    assert(rest.subrange(end as int, end as int + 3) =~= "---"@);
    assert(matches_at(rest, "---"@, end as int));
    lemma_find(rest, "---"@);
    let k = find(rest, "---"@)->0;
    assert(k >= m) by {
        if k < m {
            lemma_no_early_end(id, behind, k);
        }
    }
    let tail = behind.take(k - m);
    assert(rest.take(k) =~= headed(id, tail));
    if !contains_text(description, "---"@) {
        assert(k <= end);
        if k < end {
            let piece = rest.subrange(k, k + 3);
            assert(piece[0] == '-' && piece[1] == '-' && piece[2] == '-');
            assert(rest[k] == '-' && rest[k + 1] == '-' && rest[k + 2] == '-');
            if k + 3 <= end - 1 {
                assert(description.subrange(k - m, k - m + 3) =~= "---"@);
                assert(matches_at(description, "---"@, k - m));
            } else {
                assert(rest[end - 1] == '\n');
            }
        }
        assert(tail =~= description + "\n"@);
    }
    tail
}

/// The identifier in the head of a skill's text can be read again as its name.
proof fn lemma_text_keeps_id(
    id: Seq<char>,
    description: Seq<char>,
    name: Seq<char>,
    body: Seq<char>,
)
    requires
        is_slug(id),
        id.len() > 0,
    ensures
        skill_name(id, skill_text(id, description, name, body)) == id,
{
    reveal_strlit("name: ");
    reveal_strlit("name");
    reveal_strlit(":");
    reveal_strlit(" ");
    let tail = lemma_front(id, description, name, body);
    lemma_head_lines(id, tail);
    let list = lines(headed(id, tail));
    let key = "name"@ + ":"@;
    assert(list[0] =~= seq![]);
    assert(list[1] == "name: "@ + id);
    lemma_trim_of_fixed(list[0], CharClass::White);
    assert(after_prefix(trimmed(list[0]), key) is None);
    assert("name: "@ + id =~= key + " "@ + id);
    assert(alphanumeric(id[0]) && alphanumeric(id.last()));
    lemma_value(key, id);
    assert(list.drop_first()[0] == list[1]);
    assert(line_value(list.drop_first(), key) == id);
    assert(line_value(list, key) == id);
}

/// What a skill is for can be read again from its text.
proof fn lemma_text_keeps_description(
    id: Seq<char>,
    description: Seq<char>,
    name: Seq<char>,
    body: Seq<char>,
)
    requires
        is_slug(id),
        id.len() > 0,
        description.len() > 0,
        trimmed(description) == description,
        !description.contains('\n'),
        !contains_text(description, "---"@),
        description[0] != '"',
        description.last() != '"',
    ensures
        front_value(skill_text(id, description, name, body), "description"@) == description,
{
    reveal_strlit("name: ");
    reveal_strlit("description: ");
    reveal_strlit("description");
    reveal_strlit(":");
    reveal_strlit(" ");
    reveal_strlit("\n");
    let tail = lemma_front(id, description, name, body);
    lemma_head_lines(id, tail);
    let list = lines(headed(id, tail));
    let key = "description"@ + ":"@;
    lemma_trim_of(description, CharClass::White);
    // the third line
    let rest = "description: "@ + tail;
    let line = "description: "@ + description;
    let class = CharClass::OneOf("\n");
    assert("\n"@[0] == '\n');
    assert forall|i: int| 0 <= i < line.len() implies !class.holds(#[trigger] rest[i]) by {
        if i < 13 {
            assert(rest[i] == "description: "@[i]);
        } else {
            assert(rest[i] == description[i - 13]);
            assert(description.contains(description[i - 13]));
        }
    }
    assert(rest[line.len() as int] == '\n');
    assert(class.holds('\n'));
    lemma_run_len_is(rest, class, false, line.len());
    assert(rest.take(line.len() as int) =~= line);
    assert(line.last() == description.last());
    assert(rest.skip(line.len() as int + 1) =~= seq![]);
    assert(lines(rest.skip(line.len() as int + 1)) =~= seq![]);
    assert(lines(rest) =~= seq![line]);
    assert(list[0] =~= seq![]);
    assert(list[1] == "name: "@ + id);
    assert(list[2] == line);
    lemma_trim_of_fixed(list[0], CharClass::White);
    assert(after_prefix(trimmed(list[0]), key) is None);
    assert(alphanumeric(id.last()));
    lemma_trim_of_fixed(list[1], CharClass::White);
    assert(list[1][0] == 'n');
    assert(key[0] == 'd');
    assert(after_prefix(trimmed(list[1]), key) is None) by {
        if starts(list[1], key) {
            assert(list[1].subrange(0, key.len() as int)[0] == key[0]);
        }
    }
    assert(line =~= key + " "@ + description);
    lemma_value(key, description);
    let two = list.drop_first();
    let three = two.drop_first();
    assert(two[0] == list[1]);
    assert(three[0] == list[2]);
    assert(line_value(three, key) == description);
    assert(line_value(two, key) == line_value(three, key));
    assert(line_value(list, key) == line_value(two, key));
}

/// The identifier of a new skill is a slug.
proof fn lemma_new_id(skill_id: Seq<char>, name: Seq<char>)
    ensures
        is_slug(new_id(skill_id, name)),
        new_id(skill_id, name).len() > 0,
{
    let typed = lowered(
        trimmed(
            if trimmed(skill_id).len() == 0 {
                name
            } else {
                skill_id
            },
        ),
    );
    law_slugs_are_plain(typed);
    lemma_usual_ids();
}

/// The identifiers that skills get where nothing else gives one.
proof fn lemma_usual_ids()
    ensures
        is_id("custom-skill"@),
        is_id("imported-skill"@),
{
    reveal_strlit("custom-skill");
    reveal_strlit("imported-skill");
    let made = "custom-skill"@;
    let copied = "imported-skill"@;
    assert(made.len() == 12 && copied.len() == 14);
    assert forall|i: int| 0 <= i < made.len() implies ('a' <= #[trigger] made[i] && made[i] <= 'z'
        || made[i] == '-') && (made[i] == '-' ==> i == 6) by {
        assert(i == 0 || i == 1 || i == 2 || i == 3 || i == 4 || i == 5 || i == 6 || i == 7 || i == 8
            || i == 9 || i == 10 || i == 11);
    }
    assert forall|i: int| 0 <= i < copied.len() implies ('a' <= #[trigger] copied[i] && copied[i]
        <= 'z' || copied[i] == '-') && (copied[i] == '-' ==> i == 8) by {
        assert(i == 0 || i == 1 || i == 2 || i == 3 || i == 4 || i == 5 || i == 6 || i == 7 || i == 8
            || i == 9 || i == 10 || i == 11 || i == 12 || i == 13);
    }
}

/// A skill that was made from what the user typed in is found under its identifier when
/// its file is read again: that is the name in the head of the file.
pub proof fn law_created_skills_keep_their_id(
    skill_id: Seq<char>,
    name: Seq<char>,
    description: Seq<char>,
    content: Seq<char>,
)
    ensures
        ({
            let id = new_id(skill_id, name);
            let shown = shown_name(id, name);
            let what = shown_description(shown, description);
            skill_name(id, skill_text(id, what, shown, shown_body(content))) == id
        }),
{
    let id = new_id(skill_id, name);
    let shown = shown_name(id, name);
    lemma_new_id(skill_id, name);
    lemma_text_keeps_id(id, shown_description(shown, description), shown, shown_body(content));
}

/// What a skill that was made from what the user typed in is for can be read again from
/// its file, if it is one line without three hyphens, and has no double quote at its
/// ends.
pub proof fn law_created_skills_keep_their_description(
    skill_id: Seq<char>,
    name: Seq<char>,
    description: Seq<char>,
    content: Seq<char>,
)
    requires
        ({
            let what = shown_description(shown_name(new_id(skill_id, name), name), description);
            &&& !what.contains('\n')
            &&& !contains_text(what, "---"@)
            &&& what[0] != '"'
            &&& what.last() != '"'
        }),
    ensures
        ({
            let id = new_id(skill_id, name);
            let shown = shown_name(id, name);
            let what = shown_description(shown, description);
            skill_description(skill_text(id, what, shown, shown_body(content))) == what
        }),
{
    let id = new_id(skill_id, name);
    let shown = shown_name(id, name);
    let what = shown_description(shown, description);
    lemma_new_id(skill_id, name);
    if trimmed(description).len() == 0 {
        reveal_strlit("Use when ");
        reveal_strlit(" guidance is needed.");
        assert(what[0] == 'U');
        assert(what.last() == '.');
        lemma_trim_of_fixed(what, CharClass::White);
    } else {
        lemma_trim_of_twice(description, CharClass::White);
    }
    lemma_text_keeps_description(id, what, shown, shown_body(content));
}

/// A new skill has the name, the description and the text that the user typed, without the
/// white space around the first two; what they left blank is filled in by the identifier,
/// by a sentence with the name in it, and by a text to begin with.
pub proof fn law_typed_skills_are_kept(
    draft: SkillDraft,
    id: Seq<char>,
    name: Seq<char>,
    description: Seq<char>,
    content: Seq<char>,
)
    requires
        is_draft(draft, id, name, description, content),
    ensures
        draft.id@ == id,
        trimmed(name).len() > 0 ==> draft.name@ == trimmed(name),
        trimmed(name).len() == 0 ==> draft.name@ == id,
        trimmed(description).len() > 0 ==> draft.description@ == trimmed(description),
        trimmed(description).len() == 0 ==> contains_text(draft.description@, draft.name@),
        trimmed(content).len() > 0 ==> ends(draft.content@, "\n\n"@ + content),
        trimmed(content).len() == 0 ==> ends(draft.content@, "\n\n"@ + EMPTY_BODY@),
        starts(
            draft.content@,
            "---\nname: "@ + id + "\ndescription: "@ + draft.description@ + "\n---\n\n# "@
                + draft.name@ + "\n\n"@,
        ),
{
    let head = "---\nname: "@ + id + "\ndescription: "@ + draft.description@ + "\n---\n\n# "@
        + draft.name@ + "\n\n"@;
    let body = shown_body(content);
    let all = draft.content@;
    assert(all == head + body);
    assert(all.subrange(0, head.len() as int) =~= head);
    let tail = "\n\n"@ + body;
    assert(all.subrange(all.len() - tail.len(), all.len() as int) =~= tail);
    law_texts_hold_their_parts("Use when "@, draft.name@, " guidance is needed."@);
}

/// A new skill is known by the identifier that the user typed, and by its name where they
/// typed none; where nothing is left of either it has a usual one.
pub proof fn law_skills_are_known_by_what_was_typed(
    skill_id: Seq<char>,
    name: Seq<char>,
    other: Seq<char>,
)
    ensures
        trimmed(skill_id).len() > 0 ==> new_id(skill_id, name) == new_id(skill_id, other),
        trimmed(skill_id).len() > 0 && trimmed(other).len() == 0 ==> new_id(skill_id, name)
            == new_id(other, skill_id),
        trimmed(skill_id).len() == 0 ==> new_id(skill_id, name) == slug_or(
            lowered(trimmed(name)),
            "custom-skill"@,
        ),
        trimmed(skill_id).len() > 0 ==> new_id(skill_id, name) == slug_or(
            lowered(trimmed(skill_id)),
            "custom-skill"@,
        ),
{
}

} // verus!
