//! Running scheduled tasks: when one is due, how it is started, and what is written
//! down of it.

use vstd::prelude::*;
use crate::automation::{
    find_task, lemma_task_place, lemma_task_place_is, task_place, task_views, task_with,
    AutomationStore, AutomationTask, TaskData,
};
use crate::bytes::{byte_len, law_long_logs_keep_their_beginning, log_fits, shorten, shortened};
use crate::chat::{bare_url, strip_base_url};
use crate::clock::{is_day, is_minute, law_stamps_are_told_apart, minute_stamp, LocalMinute};
use crate::number::{decimal, u64_text};
use crate::search::{contains_text, ends, matches_at, starts};
use crate::text::{lemma_views_push, same, views};

verus! {

/// The last run of a task has not ended.
pub open spec fn running(task: TaskData) -> bool {
    task.last_run_result == "running"@
}

/// Tells whether the last run of a task has not ended.
pub fn is_running(task: &AutomationTask) -> (r: bool)
    ensures
        r == running(task@),
{
    same(task.last_run_result.as_str(), "running")
}

/// A task is due in the minute for which it is scheduled, if it is active and has not
/// run in that minute.
pub open spec fn is_due(task: TaskData, hour: int, minute: int, stamp: Seq<char>) -> bool {
    &&& task.status == "ACTIVE"@
    &&& task.hour == hour
    &&& task.minute == minute
    &&& task.last_run_at != stamp
}

/// Tells whether a task is due.
pub fn task_is_due(task: &AutomationTask, now: &LocalMinute) -> (r: bool)
    ensures
        r == is_due(task@, now.hour as int, now.minute as int, now.stamp@),
{
    same(task.status.as_str(), "ACTIVE") && task.hour == now.hour && task.minute == now.minute
        && !same(task.last_run_at.as_str(), now.stamp.as_str())
}

/// The places of the tasks that are due, in their order.
pub open spec fn due_places(
    list: Seq<TaskData>,
    hour: int,
    minute: int,
    stamp: Seq<char>,
) -> Seq<int>
    decreases list.len(),
{
    if list.len() == 0 {
        seq![]
    } else {
        let before = due_places(list.drop_last(), hour, minute, stamp);
        if is_due(list.last(), hour, minute, stamp) {
            before.push(list.len() - 1)
        } else {
            before
        }
    }
}

/// The places of the tasks that are due.
pub fn due_tasks(store: &AutomationStore, now: &LocalMinute) -> (r: Vec<usize>)
    ensures
        r@.map_values(|k: usize| k as int) == due_places(
            task_views(store.tasks@),
            now.hour as int,
            now.minute as int,
            now.stamp@,
        ),
        forall|i: int| 0 <= i < r@.len() ==> (#[trigger] r@[i]) < store.tasks@.len(),
{
    let ghost all = task_views(store.tasks@);
    let mut out: Vec<usize> = Vec::new();
    let mut i: usize = 0;
    assert(all.take(0) =~= seq![]);
    assert(out@.map_values(|k: usize| k as int) =~= seq![]);
    while i < store.tasks.len()
        invariant
            i <= store.tasks@.len(),
            all == task_views(store.tasks@),
            out@.map_values(|k: usize| k as int) == due_places(
                all.take(i as int),
                now.hour as int,
                now.minute as int,
                now.stamp@,
            ),
            forall|k: int| 0 <= k < out@.len() ==> (#[trigger] out@[k]) < i,
        decreases store.tasks@.len() - i,
    {
        let ghost before = out@;
        assert(all.take(i + 1).drop_last() =~= all.take(i as int));
        assert(all.take(i + 1).last() == store.tasks@[i as int]@);
        if task_is_due(&store.tasks[i], now) {
            out.push(i);
            assert(out@.map_values(|k: usize| k as int) =~= before.map_values(
                |k: usize| k as int,
            ).push(i as int));
        }
        i = i + 1;
    }
    assert(all.take(i as int) =~= all);
    out
}

/// The tasks that are due are found, all of them and no others, each once and in their
/// order.
pub proof fn law_due_tasks_are_found(
    list: Seq<TaskData>,
    hour: int,
    minute: int,
    stamp: Seq<char>,
)
    ensures
        forall|k: int|
            #![trigger due_places(list, hour, minute, stamp).contains(k)]
            due_places(list, hour, minute, stamp).contains(k) <==> 0 <= k < list.len() && is_due(
                list[k],
                hour,
                minute,
                stamp,
            ),
        forall|i: int, j: int|
            0 <= i < j < due_places(list, hour, minute, stamp).len() ==> (#[trigger] due_places(
                list,
                hour,
                minute,
                stamp,
            )[i]) < (#[trigger] due_places(list, hour, minute, stamp)[j]),
    decreases list.len(),
{
    let all = due_places(list, hour, minute, stamp);
    if list.len() > 0 {
        let front = list.drop_last();
        let before = due_places(front, hour, minute, stamp);
        let last = list.len() - 1;
        law_due_tasks_are_found(front, hour, minute, stamp);
        assert forall|i: int| 0 <= i < before.len() implies 0 <= (#[trigger] before[i]) < last by {
            assert(before.contains(before[i]));
        }
        assert forall|k: int| #![trigger all.contains(k)] all.contains(k) <==> 0 <= k < list.len()
            && is_due(list[k], hour, minute, stamp) by {
            if all.contains(k) {
                let i = choose|i: int| 0 <= i < all.len() && all[i] == k;
                if i < before.len() {
                    assert(before[i] == k);
                    assert(before.contains(k));
                }
            }
            if 0 <= k < list.len() && is_due(list[k], hour, minute, stamp) {
                if k < last {
                    assert(front[k] == list[k]);
                    assert(before.contains(k));
                    let i = choose|i: int| 0 <= i < before.len() && before[i] == k;
                    assert(all[i] == k);
                } else {
                    assert(all[before.len() as int] == k);
                }
            }
        }
    }
}

/// A task that has been started in a minute.
pub open spec fn begun(task: TaskData, stamp: Seq<char>) -> TaskData {
    TaskData {
        last_run_at: stamp,
        last_run_result: "running"@,
        last_run_output: seq![],
        ..task
    }
}

/// Writes down that a task has been started.
pub fn begin_task(task: &mut AutomationTask, now: &LocalMinute)
    ensures
        final(task)@ == begun(old(task)@, now.stamp@),
{
    let ghost before = task@;
    task.last_run_at = now.stamp.clone();
    task.last_run_result = "running".to_string();
    task.last_run_output = String::new();
    assert(task@ =~= begun(before, now.stamp@));
}

/// The tasks of a list after a look at them in a minute: those that are due have been
/// started, and the others are as they were.
pub open spec fn all_begun(
    list: Seq<TaskData>,
    hour: int,
    minute: int,
    stamp: Seq<char>,
) -> Seq<TaskData> {
    Seq::new(
        list.len(),
        |i: int|
            if is_due(list[i], hour, minute, stamp) {
                begun(list[i], stamp)
            } else {
                list[i]
            },
    )
}

/// Some task is due.
pub open spec fn any_due(list: Seq<TaskData>, hour: int, minute: int, stamp: Seq<char>) -> bool {
    exists|i: int| 0 <= i < list.len() && is_due(#[trigger] list[i], hour, minute, stamp)
}

/// Writes down of each task that is due that it has been started, and tells whether
/// there was any: where there was, the tasks are to be saved.
pub fn begin_due_tasks(store: &mut AutomationStore, now: &LocalMinute) -> (r: bool)
    ensures
        task_views(final(store).tasks@) == all_begun(
            task_views(old(store).tasks@),
            now.hour as int,
            now.minute as int,
            now.stamp@,
        ),
        r == any_due(
            task_views(old(store).tasks@),
            now.hour as int,
            now.minute as int,
            now.stamp@,
        ),
        final(store).version == old(store).version,
{
    let ghost before = task_views(store.tasks@);
    let ghost (h, m, stamp) = (now.hour as int, now.minute as int, now.stamp@);
    let ghost goal = all_begun(before, h, m, stamp);
    let n: usize = store.tasks.len();
    let mut any = false;
    let mut i: usize = 0;
    while i < n
        invariant
            i <= n,
            n == store.tasks@.len(),
            n == before.len(),
            before == task_views(old(store).tasks@),
            h == now.hour,
            m == now.minute,
            stamp == now.stamp@,
            goal == all_begun(before, h, m, stamp),
            store.version == old(store).version,
            forall|k: int| 0 <= k < i ==> (#[trigger] store.tasks@[k])@ == goal[k],
            forall|k: int| i <= k < n ==> (#[trigger] store.tasks@[k])@ == before[k],
            any == any_due(before.take(i as int), h, m, stamp),
        decreases n - i,
    {
        let ghost upto = before.take(i + 1);
        assert(store.tasks@[i as int]@ == before[i as int]);
        assert(upto[i as int] == before[i as int]);
        let due = task_is_due(&store.tasks[i], now);
        if due {
            let mut task = store.tasks[i].copy();
            begin_task(&mut task, now);
            store.tasks.set(i, task);
        }
        proof {
            if any {
                let k = choose|k: int|
                    0 <= k < i && is_due(#[trigger] before.take(i as int)[k], h, m, stamp);
                assert(upto[k] == before.take(i as int)[k]);
            }
            if any_due(upto, h, m, stamp) {
                let k = choose|k: int|
                    0 <= k < upto.len() && is_due(#[trigger] upto[k], h, m, stamp);
                if k < i {
                    assert(before.take(i as int)[k] == upto[k]);
                }
            }
        }
        any = any || due;
        i = i + 1;
    }
    assert(before.take(n as int) =~= before);
    assert(task_views(store.tasks@) =~= goal);
    any
}

/// After a look at the tasks none is due any more in that minute, and a second look
/// changes nothing.
pub proof fn law_a_look_leaves_nothing_due(
    list: Seq<TaskData>,
    hour: int,
    minute: int,
    stamp: Seq<char>,
)
    ensures
        !any_due(all_begun(list, hour, minute, stamp), hour, minute, stamp),
        all_begun(all_begun(list, hour, minute, stamp), hour, minute, stamp) == all_begun(
            list,
            hour,
            minute,
            stamp,
        ),
        due_places(all_begun(list, hour, minute, stamp), hour, minute, stamp).len() == 0,
        any_due(list, hour, minute, stamp) == (due_places(list, hour, minute, stamp).len() > 0),
{
    let after = all_begun(list, hour, minute, stamp);
    assert forall|i: int| 0 <= i < after.len() implies !is_due(
        #[trigger] after[i],
        hour,
        minute,
        stamp,
    ) by {}
    assert(all_begun(after, hour, minute, stamp) =~= after);
    law_due_tasks_are_found(after, hour, minute, stamp);
    law_due_tasks_are_found(list, hour, minute, stamp);
    let none = due_places(after, hour, minute, stamp);
    if none.len() > 0 {
        assert(none.contains(none[0]));
    }
    let some = due_places(list, hour, minute, stamp);
    if some.len() > 0 {
        assert(some.contains(some[0]));
    }
    if any_due(list, hour, minute, stamp) {
        let k = choose|k: int|
            0 <= k < list.len() && is_due(#[trigger] list[k], hour, minute, stamp);
        assert(some.contains(k));
    }
}

/// A task that has been started is not due again in the same minute.
pub proof fn law_tasks_run_once_a_minute(
    task: TaskData,
    stamp: Seq<char>,
    hour: int,
    minute: int,
)
    ensures
        !is_due(begun(task, stamp), hour, minute, stamp),
{
}

/// An active task that has been started on a day is due again in its minute on any other.
pub proof fn law_tasks_are_due_again(
    task: TaskData,
    ran: (int, int, int),
    now: (int, int, int),
)
    requires
        task.status == "ACTIVE"@,
        is_minute(task.hour as int, task.minute as int),
        is_day(ran.1, ran.2),
        is_day(now.1, now.2),
        ran != now,
    ensures
        ({
            let h = task.hour as int;
            let m = task.minute as int;
            is_due(
                begun(task, minute_stamp(ran.0, ran.1, ran.2, h, m)),
                h,
                m,
                minute_stamp(now.0, now.1, now.2, h, m),
            )
        }),
{
    let h = task.hour as int;
    let m = task.minute as int;
    if minute_stamp(ran.0, ran.1, ran.2, h, m) == minute_stamp(now.0, now.1, now.2, h, m) {
        law_stamps_are_told_apart((ran.0, ran.1, ran.2, h, m), (now.0, now.1, now.2, h, m));
    }
}

/// An option and its value, where there is a value.
pub open spec fn option_args(option: Seq<char>, value: Seq<char>) -> Seq<Seq<char>> {
    if value.len() == 0 {
        seq![]
    } else {
        seq![option, value]
    }
}

/// The address of the service without the white space around it and the slashes behind.
pub open spec fn task_url(task: TaskData) -> Seq<char> {
    bare_url(task.base_url)
}

/// The arguments that a task is run with.
pub open spec fn task_args(task: TaskData) -> Seq<Seq<char>> {
    option_args("--provider"@, task.provider) + option_args("--model"@, task.model) + option_args(
        "--base-url"@,
        task_url(task),
    ) + seq!["exec"@, "--auto"@, task.prompt]
}

/// How a task is run.
pub struct TaskLaunch {
    pub args: Vec<String>,
    pub base_url: String,
}

/// Puts an option and its value behind the arguments, where there is a value.
pub fn push_option(args: &mut Vec<String>, option: &str, value: &str)
    ensures
        views(final(args)@) == views(old(args)@) + option_args(option@, value@),
{
    broadcast use lemma_views_push;

    if !value.is_empty() {
        args.push(option.to_string());
        args.push(value.to_string());
    }
    assert(views(args@) =~= views(old(args)@) + option_args(option@, value@));
}

/// Says how a task is run.
pub fn launch_task(task: &AutomationTask) -> (r: TaskLaunch)
    ensures
        views(r.args@) == task_args(task@),
        r.base_url@ == task_url(task@),
{
    broadcast use lemma_views_push;

    let base_url = strip_base_url(task.base_url.as_str());
    let mut args: Vec<String> = Vec::new();
    assert(views(args@) =~= seq![]);
    push_option(&mut args, "--provider", task.provider.as_str());
    push_option(&mut args, "--model", task.model.as_str());
    push_option(&mut args, "--base-url", base_url.as_str());
    args.push("exec".to_string());
    args.push("--auto".to_string());
    args.push(task.prompt.clone());
    assert(views(args@) =~= task_args(task@));
    TaskLaunch { args, base_url }
}

/// A task whose last run went wrong, with what there is to be read of it.
pub open spec fn failed(task: TaskData, output: Seq<char>) -> TaskData {
    TaskData {
        last_run_result: "error"@,
        last_run_exit_code: -1,
        last_run_output: output,
        ..task
    }
}

fn fail_task(task: &mut AutomationTask, output: String)
    ensures
        final(task)@ == failed(old(task)@, output@),
{
    let ghost before = task@;
    let ghost text = output@;
    task.last_run_result = "error".to_string();
    task.last_run_exit_code = -1;
    task.last_run_output = output;
    assert(task@ =~= failed(before, text));
}

/// What there is to be read of a task that could not be started.
pub open spec fn spawn_message(
    error: Seq<char>,
    binary: Seq<char>,
    workspace: Seq<char>,
) -> Seq<char> {
    error + " (binary="@ + binary + ", workspace="@ + workspace + ")"@
}

/// Writes down that a task could not be started.
pub fn spawn_failed(task: &mut AutomationTask, error: &str, binary: &str, workspace: &str)
    ensures
        final(task)@ == failed(old(task)@, spawn_message(error@, binary@, workspace@)),
{
    let mut text = error.to_string();
    text.append(" (binary=");
    text.append(binary);
    text.append(", workspace=");
    text.append(workspace);
    text.append(")");
    fail_task(task, text);
}

/// How the process of a task ended: with an exit code, if it has one, or the wait for it
/// failed.
pub enum TaskExit {
    Ended(Option<i32>),
    WaitFailed(String),
}

/// How the process of a task ended.
pub enum ExitView {
    Ended(Option<int>),
    WaitFailed(Seq<char>),
}

impl View for TaskExit {
    type V = ExitView;

    open spec fn view(&self) -> ExitView {
        match *self {
            TaskExit::Ended(Some(code)) => ExitView::Ended(Some(code as int)),
            TaskExit::Ended(None) => ExitView::Ended(None),
            TaskExit::WaitFailed(e) => ExitView::WaitFailed(e@),
        }
    }
}

/// A task whose process has ended, with its log.
pub open spec fn ended(task: TaskData, exit: ExitView, log: Seq<char>) -> TaskData {
    match exit {
        ExitView::Ended(code) => {
            let exit_code = match code {
                Some(c) => c,
                None => -1,
            };
            TaskData {
                last_run_result: if exit_code == 0 {
                    "success"@
                } else {
                    "failed"@
                },
                last_run_exit_code: exit_code,
                last_run_output: shortened(log),
                ..task
            }
        },
        ExitView::WaitFailed(e) => failed(
            task,
            "Process wait error: "@ + e + "\n\n--- log ---\n"@ + shortened(log),
        ),
    }
}

fn end_task(task: &mut AutomationTask, exit: &TaskExit, log: &str)
    requires
        log_fits(log@),
    ensures
        final(task)@ == ended(old(task)@, exit@, log@),
{
    let ghost before = task@;
    let text = shorten(log);
    match exit {
        TaskExit::Ended(code) => {
            let exit_code: i32 = match code {
                Some(c) => *c,
                None => -1,
            };
            task.last_run_result = if exit_code == 0 {
                "success".to_string()
            } else {
                "failed".to_string()
            };
            task.last_run_exit_code = exit_code;
            task.last_run_output = text;
            assert(task@ =~= ended(before, exit@, log@));
        },
        TaskExit::WaitFailed(e) => {
            let mut out = "Process wait error: ".to_string();
            out.append(e.as_str());
            out.append("\n\n--- log ---\n");
            out.append(text.as_str());
            fail_task(task, out);
        },
    }
}

/// The list with the first task that has an identifier replaced.
pub open spec fn replaced(list: Seq<TaskData>, id: Seq<char>, task: TaskData) -> Seq<TaskData> {
    match task_place(list, id) {
        Some(k) => list.update(k, task),
        None => list,
    }
}

/// Writes down that the process of a task has ended, and tells whether there still is
/// such a task. `log` is what it wrote, nothing where that could not be read.
pub fn finish_task(store: &mut AutomationStore, id: &str, exit: &TaskExit, log: &str) -> (r: bool)
    requires
        task_with(task_views(old(store).tasks@), id@) is Some ==> log_fits(log@),
    ensures
        r == (task_with(task_views(old(store).tasks@), id@) is Some),
        r ==> task_views(final(store).tasks@) == replaced(
            task_views(old(store).tasks@),
            id@,
            ended(task_with(task_views(old(store).tasks@), id@)->0, exit@, log@),
        ),
        !r ==> *final(store) == *old(store),
        final(store).version == old(store).version,
{
    match find_task(&store.tasks, id) {
        Some(k) => {
            let ghost before = task_views(store.tasks@);
            let mut task = store.tasks[k].copy();
            end_task(&mut task, exit, log);
            let ghost view = task@;
            store.tasks.set(k, task);
            assert(task_views(store.tasks@) =~= before.update(k as int, view));
            true
        },
        None => false,
    }
}

/// The note behind the output of a task that was stopped.
pub const STOPPED: &'static str = "[Task was stopped by user]";

/// A task after it was stopped: where it was running, that is written behind its log, or
/// behind what there was of its output.
pub open spec fn stopped(task: TaskData, log: Option<Seq<char>>) -> TaskData {
    if !running(task) {
        task
    } else {
        failed(
            task,
            match log {
                Some(text) => shortened(text) + "\n\n[Task was stopped by user]"@,
                None => if task.last_run_output.len() == 0 {
                    STOPPED@
                } else {
                    task.last_run_output + "\n\n[Task was stopped by user]"@
                },
            },
        )
    }
}

/// The view of a log that may be missing.
pub open spec fn log_view(log: Option<&str>) -> Option<Seq<char>> {
    match log {
        Some(text) => Some(text@),
        None => None,
    }
}

/// A log that is missing or can be cut at the limit.
pub open spec fn log_usable(log: Option<&str>) -> bool {
    match log {
        Some(text) => log_fits(text@),
        None => true,
    }
}

fn stop_task(task: &mut AutomationTask, log: Option<&str>)
    requires
        running(old(task)@) ==> log_usable(log),
    ensures
        final(task)@ == stopped(old(task)@, log_view(log)),
{
    if !is_running(task) {
        return;
    }
    let output = match log {
        Some(text) => {
            let mut out = shorten(text);
            out.append("\n\n[Task was stopped by user]");
            out
        },
        None => if task.last_run_output.as_str().is_empty() {
            STOPPED.to_string()
        } else {
            let mut out = task.last_run_output.clone();
            out.append("\n\n[Task was stopped by user]");
            out
        },
    };
    fail_task(task, output);
}

/// Stops a task, and gives it back as it is then. `log` is what it wrote, if that can be
/// read; it is looked at only where the task is running.
pub fn stop_automation_task(store: &mut AutomationStore, id: &str, log: Option<&str>) -> (r: Option<
    AutomationTask,
>)
    requires
        task_with(task_views(old(store).tasks@), id@) matches Some(task) ==> running(task)
            ==> log_usable(log),
    ensures
        match (r, task_with(task_views(old(store).tasks@), id@)) {
            (Some(task), Some(was)) => {
                &&& task@ == stopped(was, log_view(log))
                &&& task_views(final(store).tasks@) == replaced(
                    task_views(old(store).tasks@),
                    id@,
                    task@,
                )
            },
            (None, None) => *final(store) == *old(store),
            _ => false,
        },
        final(store).version == old(store).version,
{
    match find_task(&store.tasks, id) {
        Some(k) => {
            let ghost before = task_views(store.tasks@);
            let mut task = store.tasks[k].copy();
            stop_task(&mut task, log);
            let kept = task.copy();
            let ghost view = task@;
            store.tasks.set(k, task);
            assert(task_views(store.tasks@) =~= before.update(k as int, view));
            Some(kept)
        },
        None => None,
    }
}

/// The command that ends the process of a task.
pub fn kill_args(pid: u32) -> (r: Vec<String>)
    ensures
        views(r@) == seq!["/F"@, "/PID"@, decimal(pid as int)],
{
    let mut args: Vec<String> = Vec::new();
    args.push("/F".to_string());
    args.push("/PID".to_string());
    args.push(u64_text(pid as u64));
    assert(views(args@) =~= seq!["/F"@, "/PID"@, decimal(pid as int)]);
    args
}

/// A task as it is when the program starts again: one that was running has failed.
pub open spec fn recovered(task: TaskData, log: Option<Seq<char>>) -> TaskData {
    if !running(task) {
        task
    } else {
        failed(
            task,
            match log {
                Some(text) => "[App was restarted while task was running]\n\n"@ + shortened(text),
                None => "[App was restarted while this "@ + "task was running — output was lost]"@,
            },
        )
    }
}

/// The view of a log that may be missing.
pub open spec fn owned_log_view(log: Option<String>) -> Option<Seq<char>> {
    match log {
        Some(text) => Some(text@),
        None => None,
    }
}

/// The tasks as they are when the program starts again, with the log of each.
pub open spec fn all_recovered(list: Seq<TaskData>, logs: Seq<Option<String>>) -> Seq<TaskData> {
    Seq::new(list.len(), |i: int| recovered(list[i], owned_log_view(logs[i])))
}

/// Some task is running.
pub open spec fn any_running(list: Seq<TaskData>) -> bool {
    exists|i: int| 0 <= i < list.len() && running(#[trigger] list[i])
}

fn recover_task(task: &mut AutomationTask, log: &Option<String>) -> (r: bool)
    requires
        running(old(task)@) ==> (log matches Some(text) ==> log_fits(text@)),
    ensures
        final(task)@ == recovered(old(task)@, owned_log_view(*log)),
        r == running(old(task)@),
{
    if !is_running(task) {
        return false;
    }
    let output = match log {
        Some(text) => {
            let mut out = "[App was restarted while task was running]\n\n".to_string();
            out.append(shorten(text.as_str()).as_str());
            out
        },
        None => {
            let mut out = "[App was restarted while this ".to_string();
            out.append("task was running — output was lost]");
            out
        },
    };
    fail_task(task, output);
    true
}

/// Puts the tasks right that were running when the program ended, and tells whether
/// there were any. `logs` holds what each task wrote, if that can be read; only those of
/// tasks that were running are looked at.
pub fn recover_tasks(store: &mut AutomationStore, logs: &Vec<Option<String>>) -> (r: bool)
    requires
        logs@.len() == old(store).tasks@.len(),
        forall|i: int|
            0 <= i < logs@.len() && running(task_views(old(store).tasks@)[i]) ==> ((
            #[trigger] logs@[i]) matches Some(text) ==> log_fits(text@)),
    ensures
        task_views(final(store).tasks@) == all_recovered(task_views(old(store).tasks@), logs@),
        r == any_running(task_views(old(store).tasks@)),
        final(store).version == old(store).version,
{
    let ghost before = task_views(store.tasks@);
    let ghost goal = all_recovered(before, logs@);
    let n: usize = store.tasks.len();
    let mut any = false;
    let mut i: usize = 0;
    while i < n
        invariant
            i <= n,
            n == store.tasks@.len(),
            n == before.len(),
            n == logs@.len(),
            before == task_views(old(store).tasks@),
            goal == all_recovered(before, logs@),
            store.version == old(store).version,
            forall|k: int|
                0 <= k < logs@.len() && running(before[k]) ==> ((#[trigger] logs@[k]) matches Some(
                    text,
                ) ==> log_fits(text@)),
            forall|k: int| 0 <= k < i ==> (#[trigger] store.tasks@[k])@ == goal[k],
            forall|k: int| i <= k < n ==> (#[trigger] store.tasks@[k])@ == before[k],
            any == any_running(before.take(i as int)),
        decreases n - i,
    {
        let mut task = store.tasks[i].copy();
        assert(store.tasks@[i as int]@ == before[i as int]);
        assert(running(before[i as int]) ==> (logs@[i as int] matches Some(text) ==> log_fits(
            text@,
        )));
        let was_running = recover_task(&mut task, &logs[i]);
        assert(task@ == goal[i as int]);
        store.tasks.set(i, task);
        proof {
            let upto = before.take(i + 1);
            if any {
                let k = choose|k: int| 0 <= k < i && running(#[trigger] before.take(i as int)[k]);
                assert(upto[k] == before.take(i as int)[k]);
            }
            if was_running {
                assert(running(upto[i as int]));
            }
            if any_running(upto) {
                let k = choose|k: int| 0 <= k < upto.len() && running(#[trigger] upto[k]);
                if k < i {
                    assert(before.take(i as int)[k] == upto[k]);
                }
            }
        }
        any = any || was_running;
        i = i + 1;
    }
    assert(before.take(n as int) =~= before);
    assert(task_views(store.tasks@) =~= goal);
    any
}

/// After the program has started again, and after a task was stopped or has ended, the
/// task is not running.
pub proof fn law_no_task_runs_forever(
    task: TaskData,
    log: Option<Seq<char>>,
    exit: ExitView,
    text: Seq<char>,
)
    ensures
        !running(recovered(task, log)),
        !running(stopped(task, log)),
        !running(ended(task, exit, text)),
{
    reveal_strlit("running");
    reveal_strlit("error");
    reveal_strlit("success");
    reveal_strlit("failed");
    assert("running"@[0] == 'r');
    assert("success"@[0] == 's');
}

/// What is written down of a run changes nothing of how the task is set up.
pub open spec fn same_setup(a: TaskData, b: TaskData) -> bool {
    b == TaskData {
        last_run_at: b.last_run_at,
        last_run_result: b.last_run_result,
        last_run_output: b.last_run_output,
        last_run_exit_code: b.last_run_exit_code,
        ..a
    }
}

/// Starting, ending, stopping and recovering a task leaves its set-up alone.
pub proof fn law_runs_leave_the_setup_alone(
    task: TaskData,
    stamp: Seq<char>,
    log: Option<Seq<char>>,
    exit: ExitView,
    text: Seq<char>,
)
    ensures
        same_setup(task, begun(task, stamp)),
        same_setup(task, failed(task, text)),
        same_setup(task, ended(task, exit, text)),
        same_setup(task, stopped(task, log)),
        same_setup(task, recovered(task, log)),
{
}

/// Replacing a task leaves every other task alone.
pub proof fn law_other_tasks_are_left_alone(
    list: Seq<TaskData>,
    id: Seq<char>,
    task: TaskData,
    other: Seq<char>,
)
    requires
        task.id == id,
        other != id,
    ensures
        task_with(replaced(list, id, task), other) == task_with(list, other),
        replaced(list, id, task).len() == list.len(),
{
    let after = replaced(list, id, task);
    lemma_task_place(list, id);
    lemma_task_place(list, other);
    lemma_task_place(after, other);
    if let Some(k) = task_place(list, id) {
        match task_place(list, other) {
            Some(m) => {
                assert forall|i: int| 0 <= i < m implies (#[trigger] after[i]).id != other by {
                    assert(list[i].id != other);
                }
                assert(after[m] == list[m]);
                lemma_task_place_is(after, other, m);
            },
            None => {
                if let Some(m) = task_place(after, other) {
                    assert(list[m].id != other);
                }
            },
        }
    }
}

/// A task is due exactly where it is active, it is the hour and the minute of the task, and
/// it has not been started in that minute: in no other hour or minute, and not while it is
/// paused.
pub proof fn law_tasks_wait_for_their_minute(
    task: TaskData,
    hour: int,
    minute: int,
    stamp: Seq<char>,
)
    ensures
        hour != task.hour ==> !is_due(task, hour, minute, stamp),
        minute != task.minute ==> !is_due(task, hour, minute, stamp),
        task.status != "ACTIVE"@ ==> !is_due(task, hour, minute, stamp),
        task.last_run_at == stamp ==> !is_due(task, hour, minute, stamp),
        task.status == "ACTIVE"@ && task.last_run_at != stamp ==> is_due(
            task,
            task.hour as int,
            task.minute as int,
            stamp,
        ),
{
}

/// A look starts the active tasks of that hour and minute, unless they were started in it,
/// and leaves all others as they were, each at its place.
pub proof fn law_a_look_starts_the_tasks_of_the_minute(
    list: Seq<TaskData>,
    hour: int,
    minute: int,
    stamp: Seq<char>,
    i: int,
)
    requires
        0 <= i < list.len(),
    ensures
        ({
            let after = all_begun(list, hour, minute, stamp);
            let task = list[i];
            &&& after.len() == list.len()
            &&& task.hour != hour || task.minute != minute || task.status != "ACTIVE"@
                || task.last_run_at == stamp ==> after[i] == task && !due_places(
                list,
                hour,
                minute,
                stamp,
            ).contains(i)
            &&& task.hour == hour && task.minute == minute && task.status == "ACTIVE"@
                && task.last_run_at != stamp ==> {
                &&& due_places(list, hour, minute, stamp).contains(i)
                &&& any_due(list, hour, minute, stamp)
                &&& after[i] == (TaskData {
                    last_run_at: stamp,
                    last_run_result: "running"@,
                    last_run_output: seq![],
                    ..task
                })
            }
        }),
{
    law_due_tasks_are_found(list, hour, minute, stamp);
    let task = list[i];
    if task.hour == hour && task.minute == minute && task.status == "ACTIVE"@ && task.last_run_at
        != stamp {
        assert(is_due(list[i], hour, minute, stamp));
    }
}

/// A task is run with its prompt as the last argument, and before that with the service,
/// the model and the address that it has, and no others.
pub proof fn law_tasks_are_run_as_they_are_set_up(task: TaskData)
    ensures
        ({
            let args = task_args(task);
            let n = args.len() as int;
            let p: int = if task.provider.len() > 0 {
                2
            } else {
                0
            };
            let m: int = if task.model.len() > 0 {
                p + 2
            } else {
                p
            };
            let u: int = if task_url(task).len() > 0 {
                m + 2
            } else {
                m
            };
            &&& n == u + 3
            &&& task.provider.len() > 0 ==> args[0] == "--provider"@ && args[1] == task.provider
            &&& task.model.len() > 0 ==> args[p] == "--model"@ && args[p + 1] == task.model
            &&& task_url(task).len() > 0 ==> args[m] == "--base-url"@ && args[m + 1] == task_url(
                task,
            )
            &&& args[n - 3] == "exec"@
            &&& args[n - 2] == "--auto"@
            &&& args[n - 1] == task.prompt
        }),
{
}

/// A run that ended with zero is a success, and any other failed, with its code; without a
/// code, or where waiting failed, the code is minus one. What the run printed is kept.
pub proof fn law_ends_are_written_down(task: TaskData, code: int, error: Seq<char>, log: Seq<char>)
    ensures
        ended(task, ExitView::Ended(Some(code)), log).last_run_exit_code == code,
        ended(task, ExitView::Ended(Some(code)), log).last_run_result == (if code == 0 {
            "success"@
        } else {
            "failed"@
        }),
        ended(task, ExitView::Ended(None), log).last_run_exit_code == -1,
        ended(task, ExitView::Ended(None), log).last_run_result == "failed"@,
        ended(task, ExitView::WaitFailed(error), log).last_run_exit_code == -1,
        ended(task, ExitView::WaitFailed(error), log).last_run_result == "error"@,
        contains_text(ended(task, ExitView::WaitFailed(error), log).last_run_output, error),
        ends(ended(task, ExitView::WaitFailed(error), log).last_run_output, shortened(log)),
        byte_len(log) <= 8000 ==> {
            &&& ended(task, ExitView::Ended(Some(code)), log).last_run_output == log
            &&& ended(task, ExitView::Ended(None), log).last_run_output == log
            &&& ends(ended(task, ExitView::WaitFailed(error), log).last_run_output, log)
        },
{
    let out = ended(task, ExitView::WaitFailed(error), log).last_run_output;
    let head = "Process wait error: "@;
    assert(out.subrange(head.len() as int, (head.len() + error.len()) as int) =~= error);
    assert(matches_at(out, error, head.len() as int));
    let tail = shortened(log);
    assert(out.subrange(out.len() - tail.len(), out.len() as int) =~= tail);
    if byte_len(log) <= 8000 {
        law_long_logs_keep_their_beginning(log);
    }
}

/// Stopping a task that runs ends it with an error, keeps what it printed and says that the
/// user stopped it; a task that does not run is left as it is.
pub proof fn law_stopped_tasks_say_so(task: TaskData, log: Option<Seq<char>>)
    ensures
        task.last_run_result != "running"@ ==> stopped(task, log) == task,
        task.last_run_result == "running"@ ==> {
            let after = stopped(task, log);
            &&& after.last_run_result == "error"@
            &&& after.last_run_exit_code == -1
            &&& after.last_run_at == task.last_run_at
            &&& ends(after.last_run_output, "[Task was stopped by user]"@)
            &&& match log {
                Some(text) => starts(after.last_run_output, shortened(text)) && (byte_len(text)
                    <= 8000 ==> starts(after.last_run_output, text)),
                None => starts(after.last_run_output, task.last_run_output),
            }
        },
{
    if task.last_run_result == "running"@ {
        let out = stopped(task, log).last_run_output;
        reveal_strlit("[Task was stopped by user]");
        reveal_strlit("\n\n[Task was stopped by user]");
        let said = "[Task was stopped by user]"@;
        assert(out.subrange(out.len() - said.len(), out.len() as int) =~= said);
        match log {
            Some(text) => {
                let kept = shortened(text);
                assert(out.subrange(0, kept.len() as int) =~= kept);
                if byte_len(text) <= 8000 {
                    law_long_logs_keep_their_beginning(text);
                }
            },
            None => {
                let kept = task.last_run_output;
                assert(out.subrange(0, kept.len() as int) =~= kept);
            },
        }
    }
}

/// When the program starts again, the tasks that were running have failed, with what they
/// printed where that can be read, and the others are left as they are, each at its place.
pub proof fn law_interrupted_tasks_have_failed(
    list: Seq<TaskData>,
    logs: Seq<Option<String>>,
    i: int,
)
    requires
        0 <= i < list.len(),
    ensures
        ({
            let after = all_recovered(list, logs);
            &&& after.len() == list.len()
            &&& list[i].last_run_result != "running"@ ==> after[i] == list[i]
            &&& list[i].last_run_result == "running"@ ==> {
                &&& any_running(list)
                &&& after[i].last_run_result == "error"@
                &&& after[i].last_run_exit_code == -1
                &&& after[i].last_run_at == list[i].last_run_at
                &&& starts(after[i].last_run_output, "[App was restarted while "@)
                &&& logs[i] matches Some(text) ==> ends(after[i].last_run_output, shortened(text@))
                    && (byte_len(text@) <= 8000 ==> ends(after[i].last_run_output, text@))
            }
        }),
{
    if list[i].last_run_result == "running"@ {
        assert(running(list[i]));
        let out = all_recovered(list, logs)[i].last_run_output;
        reveal_strlit("[App was restarted while ");
        reveal_strlit("[App was restarted while task was running]\n\n");
        reveal_strlit("[App was restarted while this ");
        let head = "[App was restarted while "@;
        assert(out.subrange(0, head.len() as int) =~= head);
        if let Some(text) = logs[i] {
            let kept = shortened(text@);
            assert(out.subrange(out.len() - kept.len(), out.len() as int) =~= kept);
            if byte_len(text@) <= 8000 {
                law_long_logs_keep_their_beginning(text@);
            }
        }
    }
}

/// What is written down of a run is found under the identifier of the task.
pub proof fn law_runs_are_written_down_at_their_task(
    list: Seq<TaskData>,
    id: Seq<char>,
    task: TaskData,
    k: int,
)
    requires
        0 <= k < list.len(),
        list[k].id == id,
        forall|i: int| 0 <= i < k ==> (#[trigger] list[i]).id != id,
        task.id == id,
    ensures
        replaced(list, id, task) == list.update(k, task),
        task_with(replaced(list, id, task), id) == Some(task),
{
    lemma_task_place_is(list, id, k);
    let after = list.update(k, task);
    assert forall|i: int| 0 <= i < k implies (#[trigger] after[i]).id != id by {
        assert(after[i] == list[i]);
    }
    lemma_task_place_is(after, id, k);
}

/// A program that does not start is reported with the error first, and with the program and
/// the directory behind it.
pub proof fn law_failed_starts_name_program_and_directory(
    error: Seq<char>,
    binary: Seq<char>,
    workspace: Seq<char>,
)
    ensures
        starts(spawn_message(error, binary, workspace), error),
        contains_text(spawn_message(error, binary, workspace), "binary="@ + binary + ", "@),
        ends(spawn_message(error, binary, workspace), ", workspace="@ + workspace + ")"@),
{
    reveal_strlit(" (binary=");
    reveal_strlit("binary=");
    reveal_strlit(", workspace=");
    reveal_strlit(", ");
    let said = spawn_message(error, binary, workspace);
    assert(said.subrange(0, error.len() as int) =~= error);
    let part = "binary="@ + binary + ", "@;
    let n = error.len() + 2int;
    assert(said.subrange(n, n + part.len()) =~= part);
    assert(matches_at(said, part, n));
    let tail = ", workspace="@ + workspace + ")"@;
    assert(said.subrange(said.len() - tail.len(), said.len() as int) =~= tail);
}

} // verus!
