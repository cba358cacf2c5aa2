//! Scheduled tasks: what they are, and how they are saved and deleted.

use vstd::prelude::*;
use crate::clock::{is_utc_time, utc_now};
use crate::json::{text_items, texts_of, Json, JsonTree};
use crate::number::{decimal, i64_text, two_places, two_places_text, u128_text};
use crate::search::{contains_text, ends, matches_at, starts};
use crate::text::{clone_list, opt_view, same, views};

verus! {

/// A scheduled task.
pub struct AutomationTask {
    pub id: String,
    pub kind: String,
    pub name: String,
    pub prompt: String,
    pub workspace_path: String,
    pub frequency: String,
    pub minute: i32,
    pub hour: i32,
    pub weekday: i32,
    pub custom_schedule: String,
    pub schedule: String,
    pub rrule: String,
    pub timezone: String,
    pub status: String,
    pub enabled: bool,
    pub installed: bool,
    pub cron_path: String,
    pub log_path: String,
    pub command_preview: String,
    pub runtime_path: String,
    pub runner_path: String,
    pub run_args: Vec<String>,
    pub provider: String,
    pub model: String,
    pub base_url: String,
    pub mcp_config_path: String,
    pub skills_dir: String,
    pub enabled_skills: Vec<String>,
    pub mcp_enabled: bool,
    pub enabled_mcp_servers: Vec<String>,
    pub allow_shell: bool,
    pub max_subagents: i32,
    pub error: Option<String>,
    pub created_at: String,
    pub updated_at: String,
    pub last_generated_at: String,
    pub last_installed_at: String,
    pub last_run_at: String,
    pub last_run_result: String,
    pub last_run_output: String,
    pub last_run_exit_code: i32,
}

/// A scheduled task.
#[verifier::ext_equal]
pub struct TaskData {
    pub id: Seq<char>,
    pub kind: Seq<char>,
    pub name: Seq<char>,
    pub prompt: Seq<char>,
    pub workspace_path: Seq<char>,
    pub frequency: Seq<char>,
    pub minute: int,
    pub hour: int,
    pub weekday: int,
    pub custom_schedule: Seq<char>,
    pub schedule: Seq<char>,
    pub rrule: Seq<char>,
    pub timezone: Seq<char>,
    pub status: Seq<char>,
    pub enabled: bool,
    pub installed: bool,
    pub cron_path: Seq<char>,
    pub log_path: Seq<char>,
    pub command_preview: Seq<char>,
    pub runtime_path: Seq<char>,
    pub runner_path: Seq<char>,
    pub run_args: Seq<Seq<char>>,
    pub provider: Seq<char>,
    pub model: Seq<char>,
    pub base_url: Seq<char>,
    pub mcp_config_path: Seq<char>,
    pub skills_dir: Seq<char>,
    pub enabled_skills: Seq<Seq<char>>,
    pub mcp_enabled: bool,
    pub enabled_mcp_servers: Seq<Seq<char>>,
    pub allow_shell: bool,
    pub max_subagents: int,
    pub error: Option<Seq<char>>,
    pub created_at: Seq<char>,
    pub updated_at: Seq<char>,
    pub last_generated_at: Seq<char>,
    pub last_installed_at: Seq<char>,
    pub last_run_at: Seq<char>,
    pub last_run_result: Seq<char>,
    pub last_run_output: Seq<char>,
    pub last_run_exit_code: int,
}

impl View for AutomationTask {
    type V = TaskData;

    open spec fn view(&self) -> TaskData {
        TaskData {
            id: self.id@,
            kind: self.kind@,
            name: self.name@,
            prompt: self.prompt@,
            workspace_path: self.workspace_path@,
            frequency: self.frequency@,
            minute: self.minute as int,
            hour: self.hour as int,
            weekday: self.weekday as int,
            custom_schedule: self.custom_schedule@,
            schedule: self.schedule@,
            rrule: self.rrule@,
            timezone: self.timezone@,
            status: self.status@,
            enabled: self.enabled,
            installed: self.installed,
            cron_path: self.cron_path@,
            log_path: self.log_path@,
            command_preview: self.command_preview@,
            runtime_path: self.runtime_path@,
            runner_path: self.runner_path@,
            run_args: views(self.run_args@),
            provider: self.provider@,
            model: self.model@,
            base_url: self.base_url@,
            mcp_config_path: self.mcp_config_path@,
            skills_dir: self.skills_dir@,
            enabled_skills: views(self.enabled_skills@),
            mcp_enabled: self.mcp_enabled,
            enabled_mcp_servers: views(self.enabled_mcp_servers@),
            allow_shell: self.allow_shell,
            max_subagents: self.max_subagents as int,
            error: opt_view(self.error),
            created_at: self.created_at@,
            updated_at: self.updated_at@,
            last_generated_at: self.last_generated_at@,
            last_installed_at: self.last_installed_at@,
            last_run_at: self.last_run_at@,
            last_run_result: self.last_run_result@,
            last_run_output: self.last_run_output@,
            last_run_exit_code: self.last_run_exit_code as int,
        }
    }
}

/// The scheduled tasks.
pub struct AutomationStore {
    pub version: i32,
    pub tasks: Vec<AutomationTask>,
}

/// What came of a command on the scheduled tasks.
pub struct AutomationActionResult {
    pub ok: bool,
    pub error: Option<String>,
    pub task: Option<AutomationTask>,
    pub tasks: Vec<AutomationTask>,
}

fn copy_option(o: &Option<String>) -> (r: Option<String>)
    ensures
        opt_view(r) == opt_view(*o),
{
    match o {
        Some(s) => Some(s.clone()),
        None => None,
    }
}

impl AutomationTask {
    /// Another task just like this one.
    pub fn copy(&self) -> (r: AutomationTask)
        ensures
            r@ == self@,
    {
        let r = AutomationTask {
            id: self.id.clone(),
            kind: self.kind.clone(),
            name: self.name.clone(),
            prompt: self.prompt.clone(),
            workspace_path: self.workspace_path.clone(),
            frequency: self.frequency.clone(),
            minute: self.minute,
            hour: self.hour,
            weekday: self.weekday,
            custom_schedule: self.custom_schedule.clone(),
            schedule: self.schedule.clone(),
            rrule: self.rrule.clone(),
            timezone: self.timezone.clone(),
            status: self.status.clone(),
            enabled: self.enabled,
            installed: self.installed,
            cron_path: self.cron_path.clone(),
            log_path: self.log_path.clone(),
            command_preview: self.command_preview.clone(),
            runtime_path: self.runtime_path.clone(),
            runner_path: self.runner_path.clone(),
            run_args: clone_list(&self.run_args),
            provider: self.provider.clone(),
            model: self.model.clone(),
            base_url: self.base_url.clone(),
            mcp_config_path: self.mcp_config_path.clone(),
            skills_dir: self.skills_dir.clone(),
            enabled_skills: clone_list(&self.enabled_skills),
            mcp_enabled: self.mcp_enabled,
            enabled_mcp_servers: clone_list(&self.enabled_mcp_servers),
            allow_shell: self.allow_shell,
            max_subagents: self.max_subagents,
            error: copy_option(&self.error),
            created_at: self.created_at.clone(),
            updated_at: self.updated_at.clone(),
            last_generated_at: self.last_generated_at.clone(),
            last_installed_at: self.last_installed_at.clone(),
            last_run_at: self.last_run_at.clone(),
            last_run_result: self.last_run_result.clone(),
            last_run_output: self.last_run_output.clone(),
            last_run_exit_code: self.last_run_exit_code,
        };
        assert(r@ =~= self@);
        r
    }
}

/// The views of a list of tasks.
pub open spec fn task_views(list: Seq<AutomationTask>) -> Seq<TaskData> {
    list.map_values(|t: AutomationTask| t@)
}

/// The place of the first task with an identifier.
pub open spec fn task_place(list: Seq<TaskData>, id: Seq<char>) -> Option<int>
    decreases list.len(),
{
    if list.len() == 0 {
        None
    } else {
        match task_place(list.drop_last(), id) {
            Some(k) => Some(k),
            None => if list.last().id == id {
                Some(list.len() - 1)
            } else {
                None
            },
        }
    }
}

/// The first task with an identifier.
pub open spec fn task_with(list: Seq<TaskData>, id: Seq<char>) -> Option<TaskData> {
    match task_place(list, id) {
        Some(k) => Some(list[k]),
        None => None,
    }
}

/// No two tasks have the same identifier.
pub open spec fn distinct_tasks(list: Seq<TaskData>) -> bool {
    forall|i: int, j: int| 0 <= i < j < list.len() ==> (#[trigger] list[i]).id != (
    #[trigger] list[j]).id
}

/// What the place of a task is.
pub proof fn lemma_task_place(list: Seq<TaskData>, id: Seq<char>)
    ensures
        match task_place(list, id) {
            Some(k) => {
                &&& 0 <= k < list.len()
                &&& list[k].id == id
                &&& forall|i: int| 0 <= i < k ==> (#[trigger] list[i]).id != id
            },
            None => forall|i: int| 0 <= i < list.len() ==> (#[trigger] list[i]).id != id,
        },
    decreases list.len(),
{
    if list.len() > 0 {
        let front = list.drop_last();
        lemma_task_place(front, id);
        match task_place(front, id) {
            Some(k) => {
                assert(front[k] == list[k]);
                assert forall|i: int| 0 <= i < k implies (#[trigger] list[i]).id != id by {
                    assert(front[i] == list[i]);
                }
            },
            None => {
                assert forall|i: int| 0 <= i < list.len() - 1 implies (#[trigger] list[i]).id
                    != id by {
                    assert(front[i] == list[i]);
                }
            },
        }
    }
}

/// The place of a task is fixed by what holds of it.
pub proof fn lemma_task_place_is(list: Seq<TaskData>, id: Seq<char>, k: int)
    requires
        0 <= k < list.len(),
        list[k].id == id,
        forall|i: int| 0 <= i < k ==> (#[trigger] list[i]).id != id,
    ensures
        task_place(list, id) == Some(k),
{
    lemma_task_place(list, id);
    match task_place(list, id) {
        Some(m) => {
            if m < k {
                assert(list[m].id != id);
            } else if k < m {
                assert(list[k].id != id);
            }
        },
        None => {
            assert(list[k].id != id);
        },
    }
}

/// The place of the first task with an identifier.
pub fn find_task(list: &Vec<AutomationTask>, id: &str) -> (r: Option<usize>)
    ensures
        match r {
            Some(k) => k < list@.len() && task_place(task_views(list@), id@) == Some(k as int),
            None => task_place(task_views(list@), id@) is None,
        },
{
    let ghost all = task_views(list@);
    let mut i: usize = 0;
    while i < list.len()
        invariant
            i <= list@.len(),
            all == task_views(list@),
            forall|k: int| 0 <= k < i ==> (#[trigger] all[k]).id != id@,
        decreases list@.len() - i,
    {
        assert(all[i as int].id == list@[i as int].id@);
        if same(list[i].id.as_str(), id) {
            proof {
                lemma_task_place_is(all, id@, i as int);
            }
            return Some(i);
        }
        i = i + 1;
    }
    proof {
        lemma_task_place(all, id@);
    }
    None
}

/// A task that nothing has been said of, at a time.
pub open spec fn blank_task(now: Seq<char>) -> TaskData {
    TaskData {
        id: seq![],
        kind: seq![],
        name: seq![],
        prompt: seq![],
        workspace_path: seq![],
        frequency: "daily"@,
        minute: 0,
        hour: 9,
        weekday: 1,
        custom_schedule: seq![],
        schedule: seq![],
        rrule: seq![],
        timezone: "Asia/Shanghai"@,
        status: seq![],
        enabled: false,
        installed: false,
        cron_path: seq![],
        log_path: seq![],
        command_preview: seq![],
        runtime_path: seq![],
        runner_path: seq![],
        run_args: seq![],
        provider: "deepseek"@,
        model: "deepseek-v4-pro"@,
        base_url: "https://api.deepseek.com"@,
        mcp_config_path: seq![],
        skills_dir: seq![],
        enabled_skills: seq![],
        mcp_enabled: false,
        enabled_mcp_servers: seq![],
        allow_shell: false,
        max_subagents: 10,
        error: None,
        created_at: now,
        updated_at: seq![],
        last_generated_at: seq![],
        last_installed_at: seq![],
        last_run_at: seq![],
        last_run_result: seq![],
        last_run_output: seq![],
        last_run_exit_code: 0,
    }
}

fn make_blank_task(now: &str) -> (r: AutomationTask)
    ensures
        r@ == blank_task(now@),
{
    let r = AutomationTask {
        id: String::new(),
        kind: String::new(),
        name: String::new(),
        prompt: String::new(),
        workspace_path: String::new(),
        frequency: "daily".to_string(),
        minute: 0,
        hour: 9,
        weekday: 1,
        custom_schedule: String::new(),
        schedule: String::new(),
        rrule: String::new(),
        timezone: "Asia/Shanghai".to_string(),
        status: String::new(),
        enabled: false,
        installed: false,
        cron_path: String::new(),
        log_path: String::new(),
        command_preview: String::new(),
        runtime_path: String::new(),
        runner_path: String::new(),
        run_args: Vec::new(),
        provider: "deepseek".to_string(),
        model: "deepseek-v4-pro".to_string(),
        base_url: "https://api.deepseek.com".to_string(),
        mcp_config_path: String::new(),
        skills_dir: String::new(),
        enabled_skills: Vec::new(),
        mcp_enabled: false,
        enabled_mcp_servers: Vec::new(),
        allow_shell: false,
        max_subagents: 10,
        error: None,
        created_at: now.to_string(),
        updated_at: String::new(),
        last_generated_at: String::new(),
        last_installed_at: String::new(),
        last_run_at: String::new(),
        last_run_result: String::new(),
        last_run_output: String::new(),
        last_run_exit_code: 0,
    };
    assert(r@ =~= blank_task(now@));
    r
}

/// The text in a field of a draft, or another where there is none.
pub open spec fn text_or(draft: JsonTree, key: Seq<char>, other: Seq<char>) -> Seq<char> {
    match draft.text_at(key) {
        Some(s) => s,
        None => other,
    }
}

/// The truth value in a field of a draft, or another where there is none.
pub open spec fn bool_or(draft: JsonTree, key: Seq<char>, other: bool) -> bool {
    match draft.bool_at(key) {
        Some(b) => b,
        None => other,
    }
}

/// The whole number in a field of a draft, kept in 32 bits, or another where there is
/// none.
pub open spec fn int_or(draft: JsonTree, key: Seq<char>, other: int) -> int {
    match draft.int_at(key) {
        Some(n) => n as i32 as int,
        None => other,
    }
}

/// The texts in a field of a draft, or others where there is no list.
pub open spec fn texts_or(
    draft: JsonTree,
    key: Seq<char>,
    other: Seq<Seq<char>>,
) -> Seq<Seq<char>> {
    match draft.list_at(key) {
        Some(items) => text_items(items),
        None => other,
    }
}

/// The identifier of the task that a draft is for: its own, or a new one made from a
/// time.
pub open spec fn draft_id(draft: JsonTree, millis: nat) -> Seq<char> {
    match draft.text_at("id"@) {
        Some(id) if id.len() > 0 => id,
        _ => "automation-"@ + decimal(millis as int),
    }
}

/// A draft asks for a task that runs.
pub open spec fn draft_enabled(draft: JsonTree) -> bool {
    text_or(draft, "status"@, "PAUSED"@) == "ACTIVE"@ || bool_or(draft, "enabled"@, false)
}

/// The task that a draft makes of a task, at a time. What the draft leaves open is made
/// from what it says, or kept.
pub open spec fn drafted(
    draft: JsonTree,
    base: TaskData,
    id: Seq<char>,
    now: Seq<char>,
) -> TaskData {
    let name = text_or(draft, "name"@, seq![]);
    let prompt = text_or(draft, "prompt"@, seq![]);
    let minute = int_or(draft, "minute"@, base.minute);
    let hour = int_or(draft, "hour"@, base.hour);
    let enabled = draft_enabled(draft);
    TaskData {
        id: id,
        kind: "cron"@,
        name: if name.len() == 0 {
            "Scheduled Task"@
        } else {
            name
        },
        prompt: prompt,
        workspace_path: text_or(draft, "workspacePath"@, base.workspace_path),
        frequency: text_or(draft, "frequency"@, base.frequency),
        minute: minute,
        hour: hour,
        weekday: int_or(draft, "weekday"@, base.weekday),
        custom_schedule: text_or(
            draft,
            "customSchedule"@,
            decimal(minute) + " "@ + decimal(hour) + " * * *"@,
        ),
        schedule: text_or(
            draft,
            "schedule"@,
            "Daily "@ + two_places(hour) + ":"@ + two_places(minute),
        ),
        rrule: text_or(
            draft,
            "rrule"@,
            "FREQ=DAILY;BYHOUR="@ + decimal(hour) + ";BYMINUTE="@ + decimal(minute),
        ),
        timezone: text_or(draft, "timezone"@, base.timezone),
        status: if enabled {
            "ACTIVE"@
        } else {
            "PAUSED"@
        },
        enabled: enabled,
        installed: enabled,
        cron_path: text_or(draft, "cronPath"@, ".deepseek/cron/"@ + id + ".cron"@),
        log_path: text_or(draft, "logPath"@, ".deepseek/logs/"@ + id + ".log"@),
        command_preview: "deepseek exec --auto '"@ + prompt + "'"@,
        runtime_path: base.runtime_path,
        runner_path: base.runner_path,
        run_args: base.run_args,
        provider: text_or(draft, "provider"@, base.provider),
        model: text_or(draft, "model"@, base.model),
        base_url: text_or(draft, "baseUrl"@, base.base_url),
        mcp_config_path: text_or(draft, "mcpConfigPath"@, base.mcp_config_path),
        skills_dir: text_or(draft, "skillsDir"@, base.skills_dir),
        enabled_skills: texts_or(draft, "enabledSkills"@, base.enabled_skills),
        mcp_enabled: bool_or(draft, "mcpEnabled"@, base.mcp_enabled),
        enabled_mcp_servers: texts_or(draft, "enabledMcpServers"@, base.enabled_mcp_servers),
        allow_shell: bool_or(draft, "allowShell"@, base.allow_shell),
        max_subagents: int_or(draft, "maxSubagents"@, base.max_subagents),
        error: None,
        created_at: base.created_at,
        updated_at: now,
        last_generated_at: now,
        last_installed_at: if enabled {
            now
        } else {
            base.last_installed_at
        },
        last_run_at: base.last_run_at,
        last_run_result: base.last_run_result,
        last_run_output: base.last_run_output,
        last_run_exit_code: base.last_run_exit_code,
    }
}

/// The list after a task was put into it: in place of the first one with its
/// identifier, or else before all others.
pub open spec fn with_task(list: Seq<TaskData>, task: TaskData) -> Seq<TaskData> {
    match task_place(list, task.id) {
        Some(k) => list.update(k, task),
        None => seq![task] + list,
    }
}

/// The task that a draft is made of: the one with its identifier, or a blank one.
pub open spec fn base_of(list: Seq<TaskData>, id: Seq<char>, now: Seq<char>) -> TaskData {
    match task_with(list, id) {
        Some(task) => task,
        None => blank_task(now),
    }
}

/// The task that comes of a draft.
pub open spec fn saved_task(
    list: Seq<TaskData>,
    draft: JsonTree,
    millis: nat,
    now: Seq<char>,
) -> TaskData {
    let id = draft_id(draft, millis);
    drafted(draft, base_of(list, id, now), id, now)
}

fn pick_text(draft: &Json, key: &str, other: String) -> (r: String)
    ensures
        r@ == text_or(draft@, key@, other@),
{
    match draft.get_text(key) {
        Some(s) => s.clone(),
        None => other,
    }
}

fn pick_bool(draft: &Json, key: &str, other: bool) -> (r: bool)
    ensures
        r == bool_or(draft@, key@, other),
{
    match draft.get_bool(key) {
        Some(b) => b,
        None => other,
    }
}

fn pick_int(draft: &Json, key: &str, other: i32) -> (r: i32)
    ensures
        r == int_or(draft@, key@, other as int),
{
    match draft.get_int(key) {
        Some(n) => #[verifier::truncate] (n as i32),
        None => other,
    }
}

fn pick_texts(draft: &Json, key: &str, other: Vec<String>) -> (r: Vec<String>)
    ensures
        views(r@) == texts_or(draft@, key@, views(other@)),
{
    match draft.get_list(key) {
        Some(items) => texts_of(items),
        None => other,
    }
}

fn between(before: &str, middle: &str, after: &str) -> (r: String)
    ensures
        r@ == before@ + middle@ + after@,
{
    let mut out = before.to_string();
    out.append(middle);
    out.append(after);
    out
}

/// Makes the task of a draft.
pub fn draft_task(draft: &Json, base: AutomationTask, id: &str, now: &str) -> (r: AutomationTask)
    ensures
        r@ == drafted(draft@, base@, id@, now@),
{
    let ghost was = base@;
    let name = pick_text(draft, "name", String::new());
    let prompt = pick_text(draft, "prompt", String::new());
    let minute: i32 = pick_int(draft, "minute", base.minute);
    let hour: i32 = pick_int(draft, "hour", base.hour);
    let status = pick_text(draft, "status", "PAUSED".to_string());
    let enabled = same(status.as_str(), "ACTIVE") || pick_bool(draft, "enabled", false);
    let hour_text = i64_text(hour as i64);
    let minute_text = i64_text(minute as i64);
    let mut rrule = between("FREQ=DAILY;BYHOUR=", hour_text.as_str(), ";BYMINUTE=");
    rrule.append(minute_text.as_str());
    let mut schedule = between("Daily ", two_places_text(hour as i64).as_str(), ":");
    schedule.append(two_places_text(minute as i64).as_str());
    let mut custom_schedule = minute_text;
    custom_schedule.append(" ");
    custom_schedule.append(hour_text.as_str());
    custom_schedule.append(" * * *");
    let preview = between("deepseek exec --auto '", prompt.as_str(), "'");
    let r = AutomationTask {
        id: id.to_string(),
        kind: "cron".to_string(),
        name: if name.as_str().is_empty() {
            "Scheduled Task".to_string()
        } else {
            name
        },
        prompt: prompt,
        workspace_path: pick_text(draft, "workspacePath", base.workspace_path),
        frequency: pick_text(draft, "frequency", base.frequency),
        minute: minute,
        hour: hour,
        weekday: pick_int(draft, "weekday", base.weekday),
        custom_schedule: pick_text(draft, "customSchedule", custom_schedule),
        schedule: pick_text(draft, "schedule", schedule),
        rrule: pick_text(draft, "rrule", rrule),
        timezone: pick_text(draft, "timezone", base.timezone),
        status: if enabled {
            "ACTIVE".to_string()
        } else {
            "PAUSED".to_string()
        },
        enabled: enabled,
        installed: enabled,
        cron_path: pick_text(draft, "cronPath", between(".deepseek/cron/", id, ".cron")),
        log_path: pick_text(draft, "logPath", between(".deepseek/logs/", id, ".log")),
        command_preview: preview,
        runtime_path: base.runtime_path,
        runner_path: base.runner_path,
        run_args: base.run_args,
        provider: pick_text(draft, "provider", base.provider),
        model: pick_text(draft, "model", base.model),
        base_url: pick_text(draft, "baseUrl", base.base_url),
        mcp_config_path: pick_text(draft, "mcpConfigPath", base.mcp_config_path),
        skills_dir: pick_text(draft, "skillsDir", base.skills_dir),
        enabled_skills: pick_texts(draft, "enabledSkills", base.enabled_skills),
        mcp_enabled: pick_bool(draft, "mcpEnabled", base.mcp_enabled),
        enabled_mcp_servers: pick_texts(draft, "enabledMcpServers", base.enabled_mcp_servers),
        allow_shell: pick_bool(draft, "allowShell", base.allow_shell),
        max_subagents: pick_int(draft, "maxSubagents", base.max_subagents),
        error: None,
        created_at: base.created_at,
        updated_at: now.to_string(),
        last_generated_at: now.to_string(),
        last_installed_at: if enabled {
            now.to_string()
        } else {
            base.last_installed_at
        },
        last_run_at: base.last_run_at,
        last_run_result: base.last_run_result,
        last_run_output: base.last_run_output,
        last_run_exit_code: base.last_run_exit_code,
    };
    assert(r@ =~= drafted(draft@, was, id@, now@));
    r
}

fn make_id(draft: &Json, millis: u128) -> (r: String)
    ensures
        r@ == draft_id(draft@, millis as nat),
{
    if let Some(id) = draft.get_text("id") {
        if !id.as_str().is_empty() {
            return id.clone();
        }
    }
    let mut out = "automation-".to_string();
    out.append(u128_text(millis).as_str());
    out
}

/// Saves the task of a draft, at a time. `millis` is the time since the epoch in
/// milliseconds, from which a new task gets its identifier.
pub fn save_automation_at(
    store: &mut AutomationStore,
    draft: &Json,
    millis: u128,
    now: &str,
) -> (r: AutomationTask)
    ensures
        r@ == saved_task(task_views(old(store).tasks@), draft@, millis as nat, now@),
        task_views(final(store).tasks@) == with_task(task_views(old(store).tasks@), r@),
        final(store).version == old(store).version,
{
    let ghost before = task_views(store.tasks@);
    let id = make_id(draft, millis);
    let found = find_task(&store.tasks, id.as_str());
    let base = match found {
        Some(k) => store.tasks[k].copy(),
        None => make_blank_task(now),
    };
    assert(base@ == base_of(before, id@, now@));
    let updated = draft_task(draft, base, id.as_str(), now);
    let kept = updated.copy();
    let ghost view = updated@;
    match found {
        Some(k) => {
            store.tasks.set(k, updated);
            assert(task_views(store.tasks@) =~= before.update(k as int, view));
        },
        None => {
            store.tasks.insert(0, updated);
            assert(task_views(store.tasks@) =~= seq![view] + before);
        },
    }
    kept
}

/// Saves the task of a draft, now.
pub fn save_automation(store: &mut AutomationStore, draft: &Json, millis: u128) -> (r:
    AutomationTask)
    ensures
        exists|now: Seq<char>|
            is_utc_time(now) && r@ == #[trigger] saved_task(
                task_views(old(store).tasks@),
                draft@,
                millis as nat,
                now,
            ),
        task_views(final(store).tasks@) == with_task(task_views(old(store).tasks@), r@),
        final(store).version == old(store).version,
{
    let now = utc_now();
    save_automation_at(store, draft, millis, now.as_str())
}

/// The tasks of a list but for those with an identifier.
pub open spec fn without_task(list: Seq<TaskData>, id: Seq<char>) -> Seq<TaskData> {
    list.filter(|t: TaskData| t.id != id)
}

/// Deletes the tasks with an identifier.
pub fn delete_automation(store: &mut AutomationStore, id: &str)
    ensures
        task_views(final(store).tasks@) == without_task(task_views(old(store).tasks@), id@),
        final(store).version == old(store).version,
{
    let ghost all = task_views(store.tasks@);
    let ghost keep = |t: TaskData| t.id != id@;
    let mut kept: Vec<AutomationTask> = Vec::new();
    let mut i: usize = 0;
    proof {
        reveal(Seq::filter);
        assert(all.take(0) =~= seq![]);
        assert(task_views(kept@) =~= seq![]);
    }
    while i < store.tasks.len()
        invariant
            i <= store.tasks@.len(),
            *store == *old(store),
            all == task_views(store.tasks@),
            keep == (|t: TaskData| t.id != id@),
            task_views(kept@) == all.take(i as int).filter(keep),
        decreases store.tasks@.len() - i,
    {
        let ghost before = kept@;
        proof {
            reveal(Seq::filter);
            assert(all.take(i + 1).drop_last() =~= all.take(i as int));
            assert(all[i as int] == store.tasks@[i as int]@);
        }
        if !same(store.tasks[i].id.as_str(), id) {
            let task = store.tasks[i].copy();
            let ghost view = task@;
            kept.push(task);
            assert(task_views(kept@) =~= task_views(before).push(view));
        }
        i = i + 1;
    }
    assert(all.take(i as int) =~= all);
    store.tasks = kept;
}

/// The tasks that are stored, or none where there is nothing to be read.
pub fn load_automations(read: Option<AutomationStore>) -> (r: AutomationStore)
    ensures
        match read {
            Some(store) => r == store,
            None => r.version == 1 && r.tasks@.len() == 0,
        },
{
    match read {
        Some(store) => store,
        None => AutomationStore { version: 1, tasks: Vec::new() },
    }
}

/// The answer to a command on the tasks, by what came of writing them: the task only
/// where that succeeded.
pub fn automation_answer(
    written: Result<(), String>,
    task: Option<AutomationTask>,
    store: AutomationStore,
) -> (r: AutomationActionResult)
    ensures
        r.tasks == store.tasks,
        match written {
            Ok(()) => r.ok && r.error is None && r.task == task,
            Err(e) => !r.ok && r.error == Some(e) && r.task is None,
        },
{
    match written {
        Ok(()) => AutomationActionResult { ok: true, error: None, task, tasks: store.tasks },
        Err(e) => AutomationActionResult {
            ok: false,
            error: Some(e),
            task: None,
            tasks: store.tasks,
        },
    }
}

/// What is said of a failure to put the tasks into text, or to write them.
pub fn store_error(serialized: bool, error: &str) -> (r: String)
    ensures
        r@ == if serialized {
            "Failed to write automations: "@ + error@
        } else {
            "Failed to serialize: "@ + error@
        },
{
    let mut out = if serialized {
        "Failed to write automations: ".to_string()
    } else {
        "Failed to serialize: ".to_string()
    };
    out.append(error);
    out
}

/// A task that was saved is found under its identifier, and every other task as before.
pub proof fn law_saved_tasks_are_found(list: Seq<TaskData>, task: TaskData, other: Seq<char>)
    ensures
        task_with(with_task(list, task), task.id) == Some(task),
        other != task.id ==> task_with(with_task(list, task), other) == task_with(list, other),
{
    let after = with_task(list, task);
    lemma_task_place(list, task.id);
    lemma_task_place(list, other);
    lemma_task_place(after, other);
    match task_place(list, task.id) {
        Some(k) => {
            lemma_task_place_is(after, task.id, k);
            if other != task.id {
                match task_place(list, other) {
                    Some(m) => {
                        assert forall|i: int| 0 <= i < m implies (#[trigger] after[i]).id
                            != other by {
                            assert(list[i].id != other);
                        }
                        assert(after[m] == list[m]);
                        lemma_task_place_is(after, other, m);
                    },
                    None => {
                        match task_place(after, other) {
                            Some(m) => {
                                assert(list[m].id != other);
                            },
                            None => {},
                        }
                    },
                }
            }
        },
        None => {
            assert(after[0] == task);
            lemma_task_place_is(after, task.id, 0);
            if other != task.id {
                match task_place(list, other) {
                    Some(m) => {
                        assert(after[m + 1] == list[m]);
                        assert forall|i: int| 0 <= i < m + 1 implies (#[trigger] after[i]).id
                            != other by {
                            if i > 0 {
                                assert(after[i] == list[i - 1]);
                            }
                        }
                        lemma_task_place_is(after, other, m + 1);
                    },
                    None => {
                        match task_place(after, other) {
                            Some(m) => {
                                assert(after[m] == list[m - 1]);
                            },
                            None => {},
                        }
                    },
                }
            }
        },
    }
}

/// Saving a draft that names its task a second time, at the same time, changes nothing
/// more.
pub proof fn law_saving_twice_is_saving_once(
    list: Seq<TaskData>,
    draft: JsonTree,
    millis: nat,
    later: nat,
    now: Seq<char>,
)
    requires
        draft.text_at("id"@) matches Some(id) && id.len() > 0,
    ensures
        ({
            let task = saved_task(list, draft, millis, now);
            let after = with_task(list, task);
            &&& saved_task(after, draft, later, now) == task
            &&& with_task(after, saved_task(after, draft, later, now)) == after
        }),
{
    let task = saved_task(list, draft, millis, now);
    let after = with_task(list, task);
    law_saved_tasks_are_found(list, task, task.id);
    let id = draft_id(draft, millis);
    assert(base_of(after, id, now) == task);
    assert(drafted(draft, task, id, now) =~= task);
    lemma_task_place(after, task.id);
    let k = task_place(after, task.id)->0;
    assert(after.update(k, task) =~= after);
}

/// What a draft says of a task is taken over, and what it leaves open is kept.
pub proof fn law_drafts_change_what_they_name(
    draft: JsonTree,
    base: TaskData,
    id: Seq<char>,
    now: Seq<char>,
)
    ensures
        ({
            let task = drafted(draft, base, id, now);
            &&& draft.text_at("prompt"@) matches Some(s) ==> task.prompt == s
            &&& draft.text_at("provider"@) matches Some(s) ==> task.provider == s
            &&& draft.text_at("provider"@) is None ==> task.provider == base.provider
            &&& draft.text_at("model"@) matches Some(s) ==> task.model == s
            &&& draft.text_at("model"@) is None ==> task.model == base.model
            &&& draft.text_at("workspacePath"@) matches Some(s) ==> task.workspace_path == s
            &&& draft.text_at("workspacePath"@) is None ==> task.workspace_path
                == base.workspace_path
            &&& draft.int_at("hour"@) is None ==> task.hour == base.hour
            &&& draft.int_at("minute"@) is None ==> task.minute == base.minute
            &&& draft.list_at("enabledSkills"@) is None ==> task.enabled_skills
                == base.enabled_skills
            &&& task.created_at == base.created_at
            &&& task.last_run_at == base.last_run_at
            &&& task.last_run_result == base.last_run_result
            &&& task.last_run_output == base.last_run_output
            &&& task.last_run_exit_code == base.last_run_exit_code
            &&& task.enabled == (task.status == "ACTIVE"@)
        }),
{
    reveal_strlit("ACTIVE");
    reveal_strlit("PAUSED");
    assert("ACTIVE"@[0] == 'A');
    assert("PAUSED"@[0] == 'P');
}

/// Saving keeps identifiers apart.
pub proof fn law_saving_keeps_tasks_distinct(list: Seq<TaskData>, task: TaskData)
    requires
        distinct_tasks(list),
    ensures
        distinct_tasks(with_task(list, task)),
        with_task(list, task).len() <= list.len() + 1,
{
    let after = with_task(list, task);
    lemma_task_place(list, task.id);
    assert forall|i: int, j: int| 0 <= i < j < after.len() implies (#[trigger] after[i]).id != (
    #[trigger] after[j]).id by {
        match task_place(list, task.id) {
            Some(k) => {
                assert(list[i].id != list[j].id);
            },
            None => {
                assert(after[j] == list[j - 1]);
                if i > 0 {
                    assert(after[i] == list[i - 1]);
                    assert(list[i - 1].id != list[j - 1].id);
                }
            },
        }
    }
}

/// A deleted task is gone, and every other task is left, in its order.
pub proof fn law_deleted_tasks_are_gone(list: Seq<TaskData>, id: Seq<char>)
    ensures
        task_with(without_task(list, id), id) is None,
        forall|i: int|
            0 <= i < list.len() && (#[trigger] list[i]).id != id ==> without_task(
                list,
                id,
            ).contains(list[i]),
        distinct_tasks(list) ==> distinct_tasks(without_task(list, id)),
{
    broadcast use vstd::seq_lib::group_filter_ensures;

    let keep = |t: TaskData| t.id != id;
    let after = without_task(list, id);
    lemma_task_place(after, id);
    assert forall|i: int| 0 <= i < after.len() implies (#[trigger] after[i]).id != id by {
        assert(keep(after[i]));
    }
    assert forall|i: int| 0 <= i < list.len() && (#[trigger] list[i]).id != id implies after.contains(
        list[i],
    ) by {
        assert(keep(list[i]));
    }
    if distinct_tasks(list) {
        lemma_filter_distinct(list, id);
    }
}

proof fn lemma_filter_distinct(list: Seq<TaskData>, id: Seq<char>)
    requires
        distinct_tasks(list),
    ensures
        distinct_tasks(without_task(list, id)),
        forall|j: int|
            0 <= j < without_task(list, id).len() ==> list.contains(
                #[trigger] without_task(list, id)[j],
            ),
    decreases list.len(),
{
    reveal(Seq::filter);
    let after = without_task(list, id);
    if list.len() > 0 {
        let front = list.drop_last();
        assert forall|i: int, j: int| 0 <= i < j < front.len() implies (#[trigger] front[i]).id != (
        #[trigger] front[j]).id by {
            assert(list[i].id != list[j].id);
        }
        lemma_filter_distinct(front, id);
        let before = without_task(front, id);
        assert forall|j: int| 0 <= j < after.len() implies list.contains(#[trigger] after[j]) by {
            if j < before.len() {
                assert(front.contains(before[j]));
                let m = choose|m: int| 0 <= m < front.len() && front[m] == before[j];
                assert(list[m] == after[j]);
            } else {
                assert(list[list.len() - 1] == after[j]);
            }
        }
        assert forall|i: int, j: int| 0 <= i < j < after.len() implies (#[trigger] after[i]).id != (
        #[trigger] after[j]).id by {
            if j < before.len() {
                assert(before[i].id != before[j].id);
            } else {
                assert(front.contains(before[i]));
                let m = choose|m: int| 0 <= m < front.len() && front[m] == before[i];
                assert(list[m].id != list[list.len() - 1].id);
            }
        }
    }
}

/// What a draft says of a setting is what the task has, and where the draft says nothing of
/// it, or something of another kind, the task keeps what it had.
pub proof fn law_drafts_set_what_they_say(
    draft: JsonTree,
    base: TaskData,
    id: Seq<char>,
    now: Seq<char>,
)
    ensures
        ({
            let task = drafted(draft, base, id, now);
            &&& match draft.field("workspacePath"@) {
                Some(JsonTree::Text(s)) => task.workspace_path == s,
                _ => task.workspace_path == base.workspace_path,
            }
            &&& match draft.field("frequency"@) {
                Some(JsonTree::Text(s)) => task.frequency == s,
                _ => task.frequency == base.frequency,
            }
            &&& match draft.field("timezone"@) {
                Some(JsonTree::Text(s)) => task.timezone == s,
                _ => task.timezone == base.timezone,
            }
            &&& match draft.field("provider"@) {
                Some(JsonTree::Text(s)) => task.provider == s,
                _ => task.provider == base.provider,
            }
            &&& match draft.field("model"@) {
                Some(JsonTree::Text(s)) => task.model == s,
                _ => task.model == base.model,
            }
            &&& match draft.field("baseUrl"@) {
                Some(JsonTree::Text(s)) => task.base_url == s,
                _ => task.base_url == base.base_url,
            }
            &&& match draft.field("mcpConfigPath"@) {
                Some(JsonTree::Text(s)) => task.mcp_config_path == s,
                _ => task.mcp_config_path == base.mcp_config_path,
            }
            &&& match draft.field("skillsDir"@) {
                Some(JsonTree::Text(s)) => task.skills_dir == s,
                _ => task.skills_dir == base.skills_dir,
            }
            &&& match draft.field("minute"@) {
                Some(JsonTree::Int(n)) => i32::MIN <= n <= i32::MAX ==> task.minute == n,
                _ => task.minute == base.minute,
            }
            &&& match draft.field("hour"@) {
                Some(JsonTree::Int(n)) => i32::MIN <= n <= i32::MAX ==> task.hour == n,
                _ => task.hour == base.hour,
            }
            &&& match draft.field("weekday"@) {
                Some(JsonTree::Int(n)) => i32::MIN <= n <= i32::MAX ==> task.weekday == n,
                _ => task.weekday == base.weekday,
            }
            &&& match draft.field("maxSubagents"@) {
                Some(JsonTree::Int(n)) => i32::MIN <= n <= i32::MAX ==> task.max_subagents == n,
                _ => task.max_subagents == base.max_subagents,
            }
            &&& match draft.field("mcpEnabled"@) {
                Some(JsonTree::Bool(b)) => task.mcp_enabled == b,
                _ => task.mcp_enabled == base.mcp_enabled,
            }
            &&& match draft.field("allowShell"@) {
                Some(JsonTree::Bool(b)) => task.allow_shell == b,
                _ => task.allow_shell == base.allow_shell,
            }
            &&& match draft.field("enabledSkills"@) {
                Some(JsonTree::List(items)) => task.enabled_skills == text_items(items),
                _ => task.enabled_skills == base.enabled_skills,
            }
            &&& match draft.field("enabledMcpServers"@) {
                Some(JsonTree::List(items)) => task.enabled_mcp_servers == text_items(items),
                _ => task.enabled_mcp_servers == base.enabled_mcp_servers,
            }
        }),
{
}

/// A task is called what its draft calls it; only without a name, or with an empty one, it
/// has the usual one. It does what its draft asks for, and shows the command for that.
pub proof fn law_tasks_have_the_name_and_prompt_of_the_draft(
    draft: JsonTree,
    base: TaskData,
    id: Seq<char>,
    now: Seq<char>,
)
    ensures
        ({
            let task = drafted(draft, base, id, now);
            &&& match draft.field("name"@) {
                Some(JsonTree::Text(name)) if name.len() > 0 => task.name == name,
                _ => task.name == "Scheduled Task"@,
            }
            &&& match draft.field("prompt"@) {
                Some(JsonTree::Text(prompt)) => task.prompt == prompt,
                _ => task.prompt.len() == 0,
            }
            &&& contains_text(task.command_preview, "'"@ + task.prompt + "'"@)
            &&& starts(task.command_preview, "deepseek exec --auto "@)
            &&& task.id == id
            &&& task.kind == "cron"@
            &&& task.error is None
        }),
{
    let task = drafted(draft, base, id, now);
    reveal_strlit("deepseek exec --auto '");
    reveal_strlit("deepseek exec --auto ");
    reveal_strlit("'");
    let shown = task.command_preview;
    let quoted = "'"@ + task.prompt + "'"@;
    assert(shown.subrange(21, 21int + quoted.len()) =~= quoted);
    assert(matches_at(shown, quoted, 21));
    assert(shown.subrange(0, 21) =~= "deepseek exec --auto "@);
}

/// A task runs if its draft says that it is active or switches it on, and only then; its
/// status says the same as its switch, and it counts as installed from the time on which
/// that was last so.
pub proof fn law_tasks_run_if_the_draft_says_so(
    draft: JsonTree,
    base: TaskData,
    id: Seq<char>,
    now: Seq<char>,
)
    ensures
        ({
            let task = drafted(draft, base, id, now);
            let on = draft.field("status"@) == Some(JsonTree::Text("ACTIVE"@)) || draft.field(
                "enabled"@,
            ) == Some(JsonTree::Bool(true));
            &&& task.enabled == on
            &&& task.installed == on
            &&& task.status == (if on {
                "ACTIVE"@
            } else {
                "PAUSED"@
            })
            &&& task.last_installed_at == (if on {
                now
            } else {
                base.last_installed_at
            })
        }),
{
    reveal_strlit("ACTIVE");
    reveal_strlit("PAUSED");
    assert("ACTIVE"@[0] == 'A' && "PAUSED"@[0] == 'P');
}

/// What is shown of the time of a task is the time at which it runs, unless the draft has
/// words of its own for it; where its files lie tells its identifier.
pub proof fn law_schedules_show_the_time_of_the_task(
    draft: JsonTree,
    base: TaskData,
    id: Seq<char>,
    now: Seq<char>,
)
    ensures
        ({
            let task = drafted(draft, base, id, now);
            let (hour, minute) = (task.hour, task.minute);
            &&& match draft.field("schedule"@) {
                Some(JsonTree::Text(s)) => task.schedule == s,
                _ => ends(task.schedule, two_places(hour) + ":"@ + two_places(minute)),
            }
            &&& match draft.field("customSchedule"@) {
                Some(JsonTree::Text(s)) => task.custom_schedule == s,
                _ => starts(task.custom_schedule, decimal(minute) + " "@ + decimal(hour) + " "@),
            }
            &&& match draft.field("rrule"@) {
                Some(JsonTree::Text(s)) => task.rrule == s,
                _ => contains_text(task.rrule, "BYHOUR="@ + decimal(hour) + ";"@) && ends(
                    task.rrule,
                    ";BYMINUTE="@ + decimal(minute),
                ),
            }
            &&& match draft.field("cronPath"@) {
                Some(JsonTree::Text(s)) => task.cron_path == s,
                _ => ends(task.cron_path, "/"@ + id + ".cron"@),
            }
            &&& match draft.field("logPath"@) {
                Some(JsonTree::Text(s)) => task.log_path == s,
                _ => ends(task.log_path, "/"@ + id + ".log"@),
            }
        }),
{
    let task = drafted(draft, base, id, now);
    let (hour, minute) = (task.hour, task.minute);
    reveal_strlit("Daily ");
    reveal_strlit(" * * *");
    reveal_strlit(" ");
    reveal_strlit("FREQ=DAILY;BYHOUR=");
    reveal_strlit("BYHOUR=");
    reveal_strlit(";BYMINUTE=");
    reveal_strlit(";");
    reveal_strlit("/");
    reveal_strlit(".deepseek/cron/");
    reveal_strlit(".deepseek/logs/");
    let time = two_places(hour) + ":"@ + two_places(minute);
    let daily = "Daily "@ + two_places(hour) + ":"@ + two_places(minute);
    assert(daily.subrange(daily.len() - time.len(), daily.len() as int) =~= time);
    let cron = decimal(minute) + " "@ + decimal(hour) + " * * *"@;
    let head = decimal(minute) + " "@ + decimal(hour) + " "@;
    assert(cron.subrange(0, head.len() as int) =~= head);
    let rule = "FREQ=DAILY;BYHOUR="@ + decimal(hour) + ";BYMINUTE="@ + decimal(minute);
    let by_hour = "BYHOUR="@ + decimal(hour) + ";"@;
    let by_minute = ";BYMINUTE="@ + decimal(minute);
    assert(rule.subrange(11, 11int + by_hour.len()) =~= by_hour);
    assert(matches_at(rule, by_hour, 11));
    assert(rule.subrange(rule.len() - by_minute.len(), rule.len() as int) =~= by_minute);
    let file = ".deepseek/cron/"@ + id + ".cron"@;
    let name = "/"@ + id + ".cron"@;
    assert(file.subrange(file.len() - name.len(), file.len() as int) =~= name);
    let log = ".deepseek/logs/"@ + id + ".log"@;
    let log_name = "/"@ + id + ".log"@;
    assert(log.subrange(log.len() - log_name.len(), log.len() as int) =~= log_name);
}

/// Saving a draft keeps what the task did before and when it was made, and writes down
/// when it was saved.
pub proof fn law_saving_keeps_the_runs_of_a_task(
    draft: JsonTree,
    base: TaskData,
    id: Seq<char>,
    now: Seq<char>,
)
    ensures
        ({
            let task = drafted(draft, base, id, now);
            &&& task.created_at == base.created_at
            &&& task.updated_at == now
            &&& task.last_generated_at == now
            &&& task.last_run_at == base.last_run_at
            &&& task.last_run_result == base.last_run_result
            &&& task.last_run_output == base.last_run_output
            &&& task.last_run_exit_code == base.last_run_exit_code
            &&& task.runtime_path == base.runtime_path
            &&& task.runner_path == base.runner_path
            &&& task.run_args == base.run_args
        }),
{
}

/// A draft is saved under the identifier that it has, or, without one, under one of its
/// own; it changes the task of that identifier where there is one.
pub proof fn law_drafts_are_saved_under_their_identifier(
    list: Seq<TaskData>,
    draft: JsonTree,
    millis: nat,
    now: Seq<char>,
    k: int,
)
    ensures
        match draft.field("id"@) {
            Some(JsonTree::Text(id)) if id.len() > 0 => saved_task(list, draft, millis, now).id
                == id,
            _ => saved_task(list, draft, millis, now).id == "automation-"@ + decimal(millis as int),
        },
        0 <= k < list.len() && list[k].id == draft_id(draft, millis) && (forall|i: int|
            0 <= i < k ==> (#[trigger] list[i]).id != list[k].id) ==> saved_task(
            list,
            draft,
            millis,
            now,
        ) == drafted(draft, list[k], list[k].id, now) && with_task(
            list,
            saved_task(list, draft, millis, now),
        ) == list.update(k, saved_task(list, draft, millis, now)),
{
    let id = "automation-"@ + decimal(millis as int);
    reveal_strlit("automation-");
    reveal_strlit("-");
    let tail = "-"@ + decimal(millis as int);
    assert(id.subrange(id.len() - tail.len(), id.len() as int) =~= tail);
    if 0 <= k < list.len() && list[k].id == draft_id(draft, millis) && (forall|i: int|
        0 <= i < k ==> (#[trigger] list[i]).id != list[k].id) {
        lemma_task_place_is(list, list[k].id, k);
    }
}

/// A task that was not there stands first, and the others behind it as they were; it was
/// made when it was saved, has not run, and where the draft says nothing runs at nine in
/// the morning with the usual service.
pub proof fn law_new_tasks_stand_first(
    list: Seq<TaskData>,
    draft: JsonTree,
    millis: nat,
    now: Seq<char>,
)
    requires
        forall|i: int| 0 <= i < list.len() ==> (#[trigger] list[i]).id != draft_id(draft, millis),
    ensures
        ({
            let task = saved_task(list, draft, millis, now);
            let after = with_task(list, task);
            &&& after.len() == list.len() + 1
            &&& after[0] == task
            &&& after.drop_first() == list
            &&& task.created_at == now
            &&& task.last_run_at.len() == 0
            &&& task.last_run_result.len() == 0
            &&& task.last_run_output.len() == 0
            &&& task.last_run_exit_code == 0
            &&& draft.field("hour"@) is None ==> task.hour == 9
            &&& draft.field("minute"@) is None ==> task.minute == 0
            &&& draft.field("weekday"@) is None ==> task.weekday == 1
            &&& draft.field("frequency"@) is None ==> task.frequency == "daily"@
            &&& draft.field("timezone"@) is None ==> task.timezone == "Asia/Shanghai"@
            &&& draft.field("provider"@) is None ==> task.provider == "deepseek"@
            &&& draft.field("model"@) is None ==> task.model == "deepseek-v4-pro"@
            &&& draft.field("baseUrl"@) is None ==> task.base_url == "https://api.deepseek.com"@
            &&& draft.field("maxSubagents"@) is None ==> task.max_subagents == 10
            &&& draft.field("allowShell"@) is None ==> !task.allow_shell
            &&& draft.field("mcpEnabled"@) is None ==> !task.mcp_enabled
            &&& draft.field("workspacePath"@) is None ==> task.workspace_path.len() == 0
            &&& draft.field("enabledSkills"@) is None ==> task.enabled_skills.len() == 0
            &&& draft.field("enabledMcpServers"@) is None ==> task.enabled_mcp_servers.len() == 0
        }),
{
    let id = draft_id(draft, millis);
    let task = saved_task(list, draft, millis, now);
    lemma_task_place(list, id);
    assert(task_place(list, id) is None);
    assert(with_task(list, task).drop_first() =~= list);
}

/// Deleting takes away the tasks of an identifier and leaves the others as they were, in
/// their order.
pub proof fn law_deleting_leaves_the_others_in_order(
    a: Seq<TaskData>,
    task: TaskData,
    b: Seq<TaskData>,
    id: Seq<char>,
)
    requires
        task.id == id,
        forall|i: int| 0 <= i < a.len() ==> (#[trigger] a[i]).id != id,
        forall|i: int| 0 <= i < b.len() ==> (#[trigger] b[i]).id != id,
    ensures
        without_task(a.push(task) + b, id) == a + b,
        without_task(a, id) == a,
{
    lemma_all_kept(a, id);
    lemma_all_kept(b, id);
    reveal(Seq::filter);
    let keep = |t: TaskData| t.id != id;
    assert(a.push(task).drop_last() =~= a);
    assert(a.push(task).filter(keep) =~= a);
    Seq::filter_distributes_over_add(a.push(task), b, keep);
}

proof fn lemma_all_kept(list: Seq<TaskData>, id: Seq<char>)
    requires
        forall|i: int| 0 <= i < list.len() ==> (#[trigger] list[i]).id != id,
    ensures
        without_task(list, id) == list,
    decreases list.len(),
{
    reveal(Seq::filter);
    if list.len() > 0 {
        lemma_all_kept(list.drop_last(), id);
        assert(without_task(list, id) =~= list);
    } else {
        assert(without_task(list, id) =~= list);
    }
}

} // verus!
