use std::path::PathBuf;

use ds_code::automation::{
    automation_answer, delete_automation, find_task, load_automations, save_automation,
    save_automation_at, store_error, AutomationStore,
};
use ds_code::bytes::can_shorten;
use ds_code::clock::{local_minute, LocalMinute};
use ds_code::git_status::{choose_git_dir, git_status, GitProbe};
use ds_code::git_task::{GitRun, GitTask};
use ds_code::json::Json;
use ds_code::json_text::parse_json;
use ds_code::schedule::{
    begin_due_tasks, begin_task, due_tasks, finish_task, is_running, kill_args, launch_task, recover_tasks,
    spawn_failed, stop_automation_task, TaskExit,
};

fn empty() -> AutomationStore {
    load_automations(None)
}

fn draft(text: &str) -> Json {
    parse_json(text).unwrap()
}

#[test]
fn drafts_are_filled_up() {
    let mut store = empty();
    assert_eq!((store.version, store.tasks.len()), (1, 0));
    let task = save_automation_at(&mut store, &draft(r#"{"prompt":"it's"}"#), 77, "now");
    assert_eq!(task.id, "automation-77");
    assert_eq!(task.kind, "cron");
    assert_eq!(task.name, "Scheduled Task");
    assert_eq!(task.prompt, "it's");
    assert_eq!((task.minute, task.hour, task.weekday), (0, 9, 1));
    assert_eq!(task.frequency, "daily");
    assert_eq!(task.custom_schedule, "0 9 * * *");
    assert_eq!(task.schedule, "Daily 09:00");
    assert_eq!(task.rrule, "FREQ=DAILY;BYHOUR=9;BYMINUTE=0");
    assert_eq!(task.timezone, "Asia/Shanghai");
    assert_eq!((task.status.as_str(), task.enabled, task.installed), ("PAUSED", false, false));
    assert_eq!(task.cron_path, ".deepseek/cron/automation-77.cron");
    assert_eq!(task.log_path, ".deepseek/logs/automation-77.log");
    assert_eq!(task.command_preview, "deepseek exec --auto 'it's'");
    assert_eq!((task.provider.as_str(), task.model.as_str()), ("deepseek", "deepseek-v4-pro"));
    assert_eq!(task.base_url, "https://api.deepseek.com");
    assert_eq!(task.max_subagents, 10);
    assert_eq!(task.error, None);
    assert_eq!((task.created_at.as_str(), task.updated_at.as_str()), ("now", "now"));
    assert_eq!((task.last_generated_at.as_str(), task.last_installed_at.as_str()), ("now", ""));
    assert_eq!(store.tasks.len(), 1);
}

#[test]
fn drafts_change_what_they_name() {
    let mut store = empty();
    save_automation_at(
        &mut store,
        &draft(
            r#"{"id":"a","name":"N","hour":7,"minute":5,"status":"ACTIVE","model":"m","enabledSkills":["x",1,"y"],"mcpEnabled":true,"timezone":"UTC"}"#,
        ),
        1,
        "t1",
    );
    let task = save_automation_at(
        &mut store,
        &draft(r#"{"id":"a","minute":30,"enabled":false,"provider":"p"}"#),
        2,
        "t2",
    );
    assert_eq!(store.tasks.len(), 1);
    assert_eq!(task.name, "Scheduled Task");
    assert_eq!((task.hour, task.minute), (7, 30));
    assert_eq!(task.schedule, "Daily 07:30");
    assert_eq!((task.status.as_str(), task.enabled), ("PAUSED", false));
    assert_eq!((task.model.as_str(), task.provider.as_str()), ("m", "p"));
    assert_eq!(task.enabled_skills, vec!["x", "y"]);
    assert!(task.mcp_enabled);
    assert_eq!(task.timezone, "UTC");
    assert_eq!((task.created_at.as_str(), task.updated_at.as_str()), ("t1", "t2"));
    assert_eq!(task.last_installed_at, "t1");
}

#[test]
fn whole_numbers_are_kept_in_32_bits() {
    let mut store = empty();
    let task = save_automation_at(
        &mut store,
        &draft(r#"{"id":"a","hour":4294967297,"minute":2147483648,"weekday":1.5}"#),
        1,
        "t",
    );
    assert_eq!(task.hour, 4294967297i64 as i32);
    assert_eq!(task.minute, 2147483648i64 as i32);
    assert_eq!(task.weekday, 1);
    assert_eq!(task.schedule, "Daily 01:-2147483648");
}

#[test]
fn an_active_status_or_the_switch_enables() {
    let mut store = empty();
    let task = save_automation_at(&mut store, &draft(r#"{"id":"a","status":"ACTIVE","enabled":false}"#), 1, "t");
    assert!(task.enabled && task.installed && task.last_installed_at == "t");
    let task = save_automation_at(&mut store, &draft(r#"{"id":"b","status":"x","enabled":true}"#), 1, "t");
    assert_eq!((task.status.as_str(), task.enabled), ("ACTIVE", true));
}

fn ids(store: &AutomationStore) -> Vec<String> {
    store.tasks.iter().map(|t| t.id.clone()).collect()
}

fn three() -> AutomationStore {
    let mut store = empty();
    for id in ["a", "b", "c"] {
        let text = format!(
            "{{\"id\":\"{}\",\"prompt\":\"do {}\",\"status\":\"ACTIVE\",\"hour\":8,\"minute\":3}}",
            id, id
        );
        save_automation_at(&mut store, &draft(&text), 1, "t");
    }
    store
}

#[test]
fn saved_tasks_are_found_and_others_left_alone() {
    let mut store = three();
    assert_eq!(ids(&store), vec!["c", "b", "a"]);
    save_automation_at(&mut store, &draft(r#"{"id":"b","prompt":"new"}"#), 1, "t");
    assert_eq!(ids(&store), vec!["c", "b", "a"]);
    assert_eq!(find_task(&store.tasks, "b"), Some(1));
    assert_eq!(store.tasks[1].prompt, "new");
    assert_eq!(store.tasks[0].prompt, "do c");
    assert_eq!(find_task(&store.tasks, "z"), None);
}

#[test]
fn saving_twice_is_saving_once() {
    let mut store = three();
    let text = r#"{"id":"b","prompt":"new","hour":5,"status":"ACTIVE"}"#;
    let once = save_automation_at(&mut store, &draft(text), 1, "t9");
    let twice = save_automation_at(&mut store, &draft(text), 2, "t9");
    assert_eq!(once.prompt, twice.prompt);
    assert_eq!(once.created_at, twice.created_at);
    assert_eq!(once.schedule, twice.schedule);
    assert_eq!(ids(&store), vec!["c", "b", "a"]);
}

#[test]
fn saving_now_writes_the_time_down() {
    let mut store = empty();
    let task = save_automation(&mut store, &draft("{}"), 5);
    assert_eq!(task.id, "automation-5");
    assert!(chrono::DateTime::parse_from_rfc3339(&task.updated_at).is_ok());
    assert!(task.updated_at.ends_with("+00:00"));
}

#[test]
fn deleted_tasks_are_gone() {
    let mut store = three();
    delete_automation(&mut store, "b");
    assert_eq!(ids(&store), vec!["c", "a"]);
    delete_automation(&mut store, "z");
    assert_eq!(ids(&store), vec!["c", "a"]);
    assert_eq!(store.tasks[0].prompt, "do c");
}

#[test]
fn answers_tell_of_failures_to_write() {
    let task = three().tasks.remove(0);
    let answer = automation_answer(Ok(()), Some(task.copy()), three());
    assert!(answer.ok && answer.error.is_none());
    assert_eq!(answer.task.unwrap().id, "c");
    let answer = automation_answer(Err("full".to_string()), Some(task), three());
    assert!(!answer.ok && answer.task.is_none());
    assert_eq!(answer.error.as_deref(), Some("full"));
    assert_eq!(answer.tasks.len(), 3);
    assert_eq!(store_error(false, "x"), "Failed to serialize: x");
    assert_eq!(store_error(true, "x"), "Failed to write automations: x");
}

fn at(hour: i32, minute: i32, stamp: &str) -> LocalMinute {
    LocalMinute {
        hour,
        minute,
        stamp: stamp.to_string(),
    }
}

#[test]
fn tasks_run_once_a_minute() {
    let mut store = three();
    store.tasks[1].status = "PAUSED".to_string();
    let now = at(8, 3, "2026-01-01 08:03");
    assert_eq!(due_tasks(&store, &now), vec![0, 2]);
    assert!(due_tasks(&store, &at(8, 4, "2026-01-01 08:04")).is_empty());
    begin_task(&mut store.tasks[0], &now);
    assert_eq!(store.tasks[0].last_run_result, "running");
    assert_eq!(store.tasks[0].last_run_at, "2026-01-01 08:03");
    assert_eq!(due_tasks(&store, &now), vec![2]);
    assert_eq!(due_tasks(&store, &at(8, 3, "2026-01-02 08:03")), vec![0, 2]);
}

#[test]
fn due_tasks_are_found() {
    let mut store = three();
    let now = at(8, 3, "2026-01-01 08:03");
    for place in 0..3 {
        assert!(due_tasks(&store, &now).contains(&place));
        begin_task(&mut store.tasks[place], &now);
        assert!(!due_tasks(&store, &now).contains(&place));
    }
}

#[test]
fn tasks_are_due_again_on_another_day() {
    let mut store = three();
    let now = at(8, 3, "2026-01-01 08:03");
    assert!(begin_due_tasks(&mut store, &now));
    for stamp in ["2026-01-02 08:03", "2026-02-01 08:03", "2027-01-01 08:03"] {
        assert_eq!(due_tasks(&store, &at(8, 3, stamp)), vec![0, 1, 2]);
    }
}

#[test]
fn a_look_begins_the_due_tasks_and_no_others() {
    let mut store = three();
    store.tasks[1].status = "PAUSED".to_string();
    let now = at(8, 3, "2026-01-01 08:03");
    assert!(!begin_due_tasks(&mut store, &at(8, 4, "2026-01-01 08:04")));
    assert!(store.tasks.iter().all(|t| !is_running(t)));
    assert!(begin_due_tasks(&mut store, &now));
    let begun: Vec<bool> = store.tasks.iter().map(is_running).collect();
    assert_eq!(begun, vec![true, false, true]);
    assert_eq!(store.tasks[0].last_run_at, "2026-01-01 08:03");
    assert_eq!(store.tasks[1].last_run_at, "");
    assert!(due_tasks(&store, &now).is_empty());
    assert!(!begin_due_tasks(&mut store, &now));
}

#[test]
fn logs_count_for_running_tasks_alone() {
    let uncuttable = format!("{}密{}", "x".repeat(7_999), "y".repeat(10));
    assert!(!can_shorten(&uncuttable));
    let mut store = three();
    assert!(!is_running(&store.tasks[0]));
    assert!(!recover_tasks(&mut store, &vec![Some(uncuttable.clone()), None, None]));
    let id = store.tasks[0].id.clone();
    let task = stop_automation_task(&mut store, &id, Some(&uncuttable)).unwrap();
    assert_eq!(task.last_run_output, "");
    assert!(!finish_task(&mut store, "z", &TaskExit::Ended(Some(0)), &uncuttable));
    begin_task(&mut store.tasks[0], &at(8, 3, "s"));
    assert!(is_running(&store.tasks[0]));
}

#[test]
fn the_local_minute_ends_its_stamp() {
    let now = local_minute();
    assert!((0..24).contains(&now.hour) && (0..60).contains(&now.minute));
    assert_eq!(now.stamp.len(), 16);
    assert!(now.stamp.ends_with(&format!(" {:02}:{:02}", now.hour, now.minute)));
    assert!(chrono::NaiveDateTime::parse_from_str(&now.stamp, "%Y-%m-%d %H:%M").is_ok());
}

#[test]
fn tasks_are_run_with_their_service() {
    let mut store = three();
    store.tasks[0].base_url = " https://x/v1// ".to_string();
    store.tasks[0].model = String::new();
    let launch = launch_task(&store.tasks[0]);
    assert_eq!(
        launch.args,
        vec!["--provider", "deepseek", "--base-url", "https://x/v1", "exec", "--auto", "do c"]
    );
    assert_eq!(launch.base_url, "https://x/v1");
    assert_eq!(kill_args(42), vec!["/F", "/PID", "42"]);
}

#[test]
fn ends_of_tasks_are_written_down() {
    let mut store = three();
    assert!(finish_task(&mut store, "b", &TaskExit::Ended(Some(0)), "log"));
    let b = &store.tasks[1];
    assert_eq!((b.last_run_result.as_str(), b.last_run_exit_code), ("success", 0));
    assert_eq!(b.last_run_output, "log");
    assert!(finish_task(&mut store, "b", &TaskExit::Ended(None), ""));
    assert_eq!(store.tasks[1].last_run_result, "failed");
    assert_eq!(store.tasks[1].last_run_exit_code, -1);
    assert!(finish_task(&mut store, "b", &TaskExit::WaitFailed("e".to_string()), "log"));
    assert_eq!(store.tasks[1].last_run_result, "error");
    assert_eq!(
        store.tasks[1].last_run_output,
        "Process wait error: e\n\n--- log ---\nlog"
    );
    assert!(!finish_task(&mut store, "z", &TaskExit::Ended(Some(0)), ""));
    assert_eq!(store.tasks[0].last_run_result, "");
    spawn_failed(&mut store.tasks[0], "no", "bin", "/w");
    assert_eq!(store.tasks[0].last_run_output, "no (binary=bin, workspace=/w)");
    assert_eq!(store.tasks[0].last_run_exit_code, -1);
}

#[test]
fn running_tasks_are_stopped() {
    let mut store = three();
    let task = stop_automation_task(&mut store, "a", Some("log")).unwrap();
    assert_eq!(task.last_run_result, "");
    begin_task(&mut store.tasks[2], &at(8, 3, "s"));
    let task = stop_automation_task(&mut store, "a", None).unwrap();
    assert_eq!(task.last_run_output, "[Task was stopped by user]");
    assert_eq!((task.last_run_result.as_str(), task.last_run_exit_code), ("error", -1));
    store.tasks[2].last_run_result = "running".to_string();
    stop_automation_task(&mut store, "a", None);
    assert_eq!(
        store.tasks[2].last_run_output,
        "[Task was stopped by user]\n\n[Task was stopped by user]"
    );
    store.tasks[2].last_run_result = "running".to_string();
    let task = stop_automation_task(&mut store, "a", Some("log")).unwrap();
    assert_eq!(task.last_run_output, "log\n\n[Task was stopped by user]");
    assert!(stop_automation_task(&mut store, "z", None).is_none());
}

#[test]
fn running_tasks_are_recovered() {
    let mut store = three();
    assert!(!recover_tasks(&mut store, &vec![None, None, None]));
    begin_task(&mut store.tasks[0], &at(8, 3, "s"));
    begin_task(&mut store.tasks[2], &at(8, 3, "s"));
    let logs = vec![Some("log".to_string()), Some("x".to_string()), None];
    assert!(recover_tasks(&mut store, &logs));
    assert_eq!(
        store.tasks[0].last_run_output,
        "[App was restarted while task was running]\n\nlog"
    );
    assert_eq!(store.tasks[1].last_run_output, "");
    let lost = &store.tasks[2].last_run_output;
    assert!(lost.starts_with("[App was restarted while this"));
    assert!(lost.ends_with("was running — output was lost]"));
    assert_eq!(lost.chars().count(), 65);
    assert!(store.tasks.iter().all(|t| t.last_run_result != "running"));
    assert!(store.tasks.iter().all(|t| t.prompt.starts_with("do ")));
}

fn probe_with(replies: &[Result<&str, &str>]) -> (GitProbe, Vec<(Vec<String>, String)>) {
    let mut probe = GitProbe::new("/w".to_string());
    let mut commands = Vec::new();
    let mut replies = replies.iter();
    while let Some(command) = probe.command() {
        commands.push((command.args, command.dir));
        let reply = match replies.next().unwrap() {
            Ok(s) => Ok(s.to_string()),
            Err(s) => Err(s.to_string()),
        };
        probe.reply(reply);
    }
    (probe, commands)
}

#[test]
fn no_repository_is_no_error() {
    let (probe, commands) = probe_with(&[Err("fatal")]);
    assert_eq!(commands.len(), 1);
    let status = git_status(&probe);
    assert!(status.ok && !status.is_repo && status.error.is_empty());
    assert_eq!(status.workspace_path, "/w");
    assert!(!status.has_changes && status.remotes.is_empty());
}

#[test]
fn repositories_are_probed_command_by_command() {
    let (probe, commands) = probe_with(&[
        Ok("/repo\n"),
        Ok("main\n"),
        Ok("origin/main\n"),
        Ok("3\t2\n"),
        Ok("M  a\n M b\nMM c\n?? d\r\n"),
        Ok("origin\tgit@x:y (fetch)\norigin\tgit@x:y (push)\nup url (fetch)\nodd line\n"),
    ]);
    let lines: Vec<String> = commands.iter().map(|c| c.0.join(" ")).collect();
    assert_eq!(
        lines,
        vec![
            "rev-parse --show-toplevel",
            "branch --show-current",
            "rev-parse --abbrev-ref --symbolic-full-name @{u}",
            "rev-list --left-right --count HEAD...origin/main\n",
            "status --porcelain=v1 -uall",
            "remote -v",
        ]
    );
    assert_eq!(commands[0].1, "/w");
    assert!(commands[1..].iter().all(|c| c.1 == "/repo\n"));
    let status = git_status(&probe);
    assert!(status.ok && status.is_repo && status.has_changes);
    assert_eq!(status.repo_root, "/repo\n");
    assert_eq!((status.branch.as_str(), status.upstream.as_str()), ("main", "origin/main"));
    assert_eq!((status.ahead, status.behind), (3, 2));
    assert_eq!((status.staged, status.unstaged, status.untracked), (2, 3, 1));
    let names: Vec<&str> = status.remotes.iter().map(|r| r.name.as_str()).collect();
    assert_eq!(names, vec!["origin", "up"]);
    assert!(status.remotes.iter().all(|r| r.fetch_url.is_empty() && r.push_url.is_empty()));
    assert_eq!(status.origin_url, "");
}

#[test]
fn without_an_upstream_nothing_is_counted() {
    let (probe, commands) = probe_with(&[Ok("/r"), Err("x"), Err("none"), Err("x"), Err("x")]);
    assert_eq!(commands.len(), 5);
    let status = git_status(&probe);
    assert!(status.is_repo && !status.has_changes);
    assert_eq!((status.branch.as_str(), status.ahead, status.behind), ("", 0, 0));
    let (probe, _) = probe_with(&[Ok("/r"), Ok(""), Ok("u"), Ok("x 5"), Ok(""), Ok("")]);
    let status = git_status(&probe);
    assert_eq!((status.ahead, status.behind), (0, 5));
}

#[test]
fn the_home_directory_stands_in_for_none() {
    assert_eq!(choose_git_dir("/w", Some(PathBuf::from("/home"))), "/w");
    assert_eq!(choose_git_dir("", Some(PathBuf::from("/home"))), "/home");
    assert_eq!(choose_git_dir("", None), "");
}

#[test]
fn probes_start_where_they_are_told() {
    assert_eq!(GitProbe::start("/w").command().unwrap().dir, "/w");
    assert_eq!(
        GitProbe::start("").command().unwrap().dir,
        choose_git_dir("", dirs::home_dir())
    );
}

#[test]
fn untracked_files_are_not_staged() {
    let (probe, _) = probe_with(&[Ok("/r"), Ok(""), Err(""), Ok("?? a\n?? b\n"), Ok("")]);
    let status = git_status(&probe);
    assert!(status.has_changes);
    assert_eq!((status.staged, status.unstaged, status.untracked), (0, 2, 2));
}

fn run_task(task: GitTask, replies: &[Result<&str, &str>]) -> (Result<(), String>, Vec<String>) {
    let mut run = GitRun::new(task, "/w", Some(PathBuf::from("/home")));
    let mut lines = Vec::new();
    let mut replies = replies.iter();
    while let Some(command) = run.command() {
        lines.push(format!("{}: {}", command.dir, command.args.join(" ")));
        let reply = match replies.next().unwrap() {
            Ok(s) => Ok(s.to_string()),
            Err(s) => Err(s.to_string()),
        };
        if let Err(e) = run.reply(reply) {
            return (Err(e), lines);
        }
    }
    (Ok(()), lines)
}

#[test]
fn tasks_run_their_commands_in_order() {
    let (end, lines) = run_task(GitTask::Init, &[Ok("")]);
    assert_eq!((end, lines), (Ok(()), vec!["/w: init -b main".to_string()]));
    let (end, lines) = run_task(GitTask::Commit("m".to_string()), &[Ok("/r"), Ok(""), Ok("")]);
    assert_eq!(end, Ok(()));
    assert_eq!(
        lines,
        vec!["/w: rev-parse --show-toplevel", "/r: add -A", "/r: commit -m m"]
    );
    for (task, line) in [
        (GitTask::Fetch, "/r: fetch --prune origin"),
        (GitTask::Pull, "/r: pull --ff-only"),
        (GitTask::Push, "/r: push"),
    ] {
        let (end, lines) = run_task(task, &[Ok("/r"), Ok("")]);
        assert_eq!(end, Ok(()));
        assert_eq!(lines[1], line);
    }
}

#[test]
fn addresses_are_set_or_added() {
    let task = || GitTask::SetRemote("u".to_string());
    let (end, lines) = run_task(task(), &[Ok("/r"), Ok("old"), Ok("")]);
    assert_eq!(end, Ok(()));
    assert_eq!(lines[1], "/r: remote get-url origin");
    assert_eq!(lines[2], "/r: remote set-url origin u");
    let (_, lines) = run_task(task(), &[Ok("/r"), Err("no"), Ok("")]);
    assert_eq!(lines[2], "/r: remote add origin u");
}

#[test]
fn failed_commands_end_their_task() {
    let (end, lines) = run_task(GitTask::Push, &[Err("not a repository")]);
    assert_eq!((end, lines.len()), (Err("not a repository".to_string()), 1));
    let (end, lines) = run_task(GitTask::Commit("m".to_string()), &[Ok("/r"), Ok(""), Err("empty")]);
    assert_eq!((end, lines.len()), (Err("empty".to_string()), 3));
    let run = GitRun::start(GitTask::Init, "");
    let home = dirs::home_dir().map(|p| p.to_string_lossy().to_string()).unwrap_or_default();
    assert_eq!(run.workspace_path, home);
}
