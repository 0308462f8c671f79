//! The task scheduler's decisions: when a fetched task runs, and what state a
//! task is left in after it ran.

use vstd::prelude::*;
use crate::scoreboard::{Moment, earlier, is_earlier};
use crate::text::str_equals;

verus! {

/// The states of a scheduled task, stored as "pending", "running",
/// "completed" and "failed".
#[derive(Clone, Copy, Debug, PartialEq, Eq, Structural)]
pub enum TaskStatus {
    Pending,
    Running,
    Completed,
    Failed,
}

pub open spec fn status_name(s: TaskStatus) -> Seq<char> {
    match s {
        TaskStatus::Pending => "pending"@,
        TaskStatus::Running => "running"@,
        TaskStatus::Completed => "completed"@,
        TaskStatus::Failed => "failed"@,
    }
}

impl TaskStatus {
    /// The stored name of the state.
    pub fn name(&self) -> (r: String)
        ensures
            r@ == status_name(*self),
    {
        match self {
            TaskStatus::Pending => String::from_str("pending"),
            TaskStatus::Running => String::from_str("running"),
            TaskStatus::Completed => String::from_str("completed"),
            TaskStatus::Failed => String::from_str("failed"),
        }
    }
}

/// What reading a task's cron expression gave.
#[derive(Clone, Debug)]
pub enum CronOutcome {
    /// The task has no cron expression.
    NoExpression,
    /// The expression is not valid; the parser's message.
    Invalid(String),
    /// The schedule has no further run.
    NoNextRun,
    /// The next run of the schedule.
    NextRun(Moment),
}

/// The changes to store on a task after it ran (besides its run times):
/// `None` leaves a column as it is.
#[derive(Clone, Debug)]
pub struct TaskUpdate {
    pub status: Option<TaskStatus>,
    pub error_msg: Option<String>,
    pub execute_at: Option<Moment>,
}

/// The changes after a run: a failed run marks the task failed with the
/// error; a cron task is rescheduled to its next run, unless that is past
/// its expiry or there is none (completed), fails when its expression is not
/// valid, and is left as it is without an expression; any other task is
/// completed.
pub open spec fn completion_ok(
    u: TaskUpdate,
    run_error: Option<Seq<char>>,
    trigger: Seq<char>,
    cron: CronOutcome,
    expires_at: Option<Moment>,
) -> bool {
    match run_error {
        Some(m) => u.status == Some(TaskStatus::Failed) && u.error_msg.is_some()
            && u.error_msg.unwrap()@ == m && u.execute_at.is_none(),
        None => if trigger == "cron"@ {
            match cron {
                CronOutcome::NoExpression => u.status.is_none() && u.error_msg.is_none()
                    && u.execute_at.is_none(),
                CronOutcome::Invalid(m) => u.status == Some(TaskStatus::Failed)
                    && u.error_msg.is_some() && u.error_msg.unwrap()@ == "Cron 解析失败: "@ + m@
                    && u.execute_at.is_none(),
                CronOutcome::NoNextRun => u.status == Some(TaskStatus::Completed)
                    && u.error_msg.is_none() && u.execute_at.is_none(),
                CronOutcome::NextRun(t) => if expires_at.is_some() && earlier(
                    expires_at.unwrap(),
                    t,
                ) {
                    u.status == Some(TaskStatus::Completed) && u.error_msg.is_none()
                        && u.execute_at.is_none()
                } else {
                    u.status == Some(TaskStatus::Pending) && u.error_msg.is_none()
                        && u.execute_at == Some(t)
                },
            }
        } else {
            u.status == Some(TaskStatus::Completed) && u.error_msg.is_none()
                && u.execute_at.is_none()
        },
    }
}

/// The changes to store on a task after a run, given the run's error (if
/// any), the task's trigger type, what its cron expression gave, and when it
/// expires.
pub fn plan_completion(
    run_error: Option<String>,
    trigger: &str,
    cron: CronOutcome,
    expires_at: Option<Moment>,
) -> (r: TaskUpdate)
    ensures
        completion_ok(
            r,
            match run_error {
                Some(m) => Some(m@),
                None => None,
            },
            trigger@,
            cron,
            expires_at,
        ),
{
    match run_error {
        Some(m) => TaskUpdate { status: Some(TaskStatus::Failed), error_msg: Some(m), execute_at: None },
        None => {
            if str_equals(trigger, "cron") {
                match cron {
                    CronOutcome::NoExpression => TaskUpdate {
                        status: None,
                        error_msg: None,
                        execute_at: None,
                    },
                    CronOutcome::Invalid(m) => {
                        let mut msg = String::from_str("Cron 解析失败: ");
                        msg.append(m.as_str());
                        TaskUpdate {
                            status: Some(TaskStatus::Failed),
                            error_msg: Some(msg),
                            execute_at: None,
                        }
                    },
                    CronOutcome::NoNextRun => TaskUpdate {
                        status: Some(TaskStatus::Completed),
                        error_msg: None,
                        execute_at: None,
                    },
                    CronOutcome::NextRun(t) => {
                        let expired = match expires_at {
                            Some(e) => is_earlier(e, t),
                            None => false,
                        };
                        if expired {
                            TaskUpdate {
                                status: Some(TaskStatus::Completed),
                                error_msg: None,
                                execute_at: None,
                            }
                        } else {
                            TaskUpdate {
                                status: Some(TaskStatus::Pending),
                                error_msg: None,
                                execute_at: Some(t),
                            }
                        }
                    },
                }
            } else {
                TaskUpdate { status: Some(TaskStatus::Completed), error_msg: None, execute_at: None }
            }
        },
    }
}

#[verifier::external_type_specification]
#[verifier::external_body]
pub struct ExCronSchedule(cron::Schedule);

/// What the cron crate makes of an expression: `None` when it parses, the
/// parser's message when it does not.
pub uninterp spec fn cron_parse_error(expr: Seq<char>) -> Option<Seq<char>>;

/// Parses a cron expression (cron's `Schedule::from_str`); whether it parses,
/// and the message when not, are named, not stated.
#[verifier::external_body]
fn parse_cron(expr: &str) -> (r: Result<cron::Schedule, String>)
    ensures
        r.is_ok() == cron_parse_error(expr@).is_none(),
        r.is_err() ==> cron_parse_error(expr@) == Some(r->Err_0@),
{
    <cron::Schedule as std::str::FromStr>::from_str(expr).map_err(|e| e.to_string())
}

/// The first run of the schedule that `expr` describes after the moment
/// `secs`, `nanos` (UTC), as cron's `Schedule::after` gives it: `None` when
/// the expression does not parse, the moment is outside chrono's range, or
/// the schedule has no later run.
pub uninterp spec fn cron_next_after(expr: Seq<char>, secs: i64, nanos: u32) -> Option<(i64, u32)>;

/// The first run after `now` of the schedule `expr` describes (cron's
/// `Schedule::from_str`, chrono's `DateTime::from_timestamp`, then
/// `Schedule::after(..).next()`); the result is named, not stated.
#[verifier::external_body]
fn next_run_after(expr: &str, now: Moment) -> (r: Option<Moment>)
    ensures
        match r {
            Some(t) => cron_next_after(expr@, now.secs, now.nanos) == Some((t.secs, t.nanos)),
            None => cron_next_after(expr@, now.secs, now.nanos) is None,
        },
{
    let schedule = <cron::Schedule as std::str::FromStr>::from_str(expr).ok()?;
    let at = chrono::DateTime::<chrono::Utc>::from_timestamp(now.secs, now.nanos)?;
    schedule.after(&at).next().map(|t| Moment { secs: t.timestamp(), nanos: t.timestamp_subsec_nanos() })
}

/// The present moment (chrono's `Utc::now`); it depends on the clock, so
/// nothing is stated of it.
#[verifier::external_body]
pub(crate) fn clock_now() -> (r: Moment) {
    let t = chrono::Utc::now();
    Moment { secs: t.timestamp(), nanos: t.timestamp_subsec_nanos() }
}

/// What a task's cron expression gives at `now`: no expression; the
/// parser's message when it does not parse; else the schedule's first run
/// after `now`, or that it has none.
pub open spec fn cron_outcome_ok(c: CronOutcome, expr: Option<String>, now: Moment) -> bool {
    match expr {
        None => c is NoExpression,
        Some(e) => match cron_parse_error(e@) {
            Some(m) => c is Invalid && c->Invalid_0@ == m,
            None => match cron_next_after(e@, now.secs, now.nanos) {
                Some((s, n)) => c == CronOutcome::NextRun(Moment { secs: s, nanos: n }),
                None => c is NoNextRun,
            },
        },
    }
}

/// What a task's cron expression gives at `now`.
pub fn cron_outcome(expr: &Option<String>, now: Moment) -> (r: CronOutcome)
    ensures
        cron_outcome_ok(r, *expr, now),
{
    match expr {
        None => CronOutcome::NoExpression,
        Some(e) => match parse_cron(e.as_str()) {
            Err(m) => CronOutcome::Invalid(m),
            Ok(_) => match next_run_after(e.as_str(), now) {
                None => CronOutcome::NoNextRun,
                Some(t) => CronOutcome::NextRun(t),
            },
        },
    }
}

/// The changes to store on a task after a run at `now`. The cron expression
/// is read only for a cron task whose run succeeded.
pub fn complete_task(
    run_error: Option<String>,
    trigger: &str,
    cron_expr: &Option<String>,
    expires_at: Option<Moment>,
    now: Moment,
) -> (r: TaskUpdate)
    ensures
        run_error.is_some() || trigger@ != "cron"@ ==> completion_ok(
            r,
            match run_error {
                Some(m) => Some(m@),
                None => None,
            },
            trigger@,
            CronOutcome::NoExpression,
            expires_at,
        ),
        run_error.is_none() && trigger@ == "cron"@ ==> exists|c: CronOutcome|
            completion_ok(r, None, trigger@, c, expires_at) && cron_outcome_ok(c, *cron_expr, now),
{
    let needs_cron = run_error.is_none() && str_equals(trigger, "cron");
    if needs_cron {
        let c = cron_outcome(cron_expr, now);
        let ghost gc = c;
        let r = plan_completion(run_error, trigger, c, expires_at);
        proof {
            assert(completion_ok(r, None, trigger@, gc, expires_at));
        }
        r
    } else {
        plan_completion(run_error, trigger, CronOutcome::NoExpression, expires_at)
    }
}

/// A handler of scheduled tasks: the key of the tasks it runs and how they
/// are triggered ("startup", "cron" or a one-off).
pub trait TaskHandler {
    fn task_key(&self) -> &'static str;

    fn trigger_type(&self) -> &'static str;
}

/// A task the scheduler makes sure exists at start-up.
#[derive(Clone, Debug)]
pub struct StartupTask {
    /// The task's fixed id, in text form.
    pub id: String,
    pub name: String,
    pub task_key: String,
    pub trigger_type: String,
}

fn startup_task(id: &str, name: &str, key: &str) -> (r: StartupTask)
    ensures
        r.id@ == id@,
        r.name@ == name@,
        r.task_key@ == key@,
        r.trigger_type@ == "startup"@,
{
    StartupTask {
        id: String::from_str(id),
        name: String::from_str(name),
        task_key: String::from_str(key),
        trigger_type: String::from_str("startup"),
    }
}

/// The tasks registered at start-up: checking the practice event and
/// cleaning up instances left running.
pub fn startup_tasks() -> (r: Vec<StartupTask>)
    ensures
        r.len() == 2,
        r@[0].id@ == "00000000-0000-0000-0000-000000000000"@,
        r@[0].name@ == "检查练习event"@,
        r@[0].task_key@ == "CHECK_PRATICE_EVENT"@,
        r@[0].trigger_type@ == "startup"@,
        r@[1].id@ == "00000000-0000-0000-0000-000000000001"@,
        r@[1].name@ == "实例清理"@,
        r@[1].task_key@ == "CLEAN_INSTANCES"@,
        r@[1].trigger_type@ == "startup"@,
{
    let mut v: Vec<StartupTask> = Vec::new();
    v.push(startup_task("00000000-0000-0000-0000-000000000000", "检查练习event", "CHECK_PRATICE_EVENT"));
    v.push(startup_task("00000000-0000-0000-0000-000000000001", "实例清理", "CLEAN_INSTANCES"));
    v
}

/// What a fetched task does next.
#[derive(Clone, Copy, Debug, PartialEq, Eq, Structural)]
pub enum DispatchStep {
    /// A disabled task is left alone.
    Skip,
    /// A task due later waits this long, then runs.
    Wait { secs: u64, nanos: u32 },
    /// A task already due runs at once.
    RunNow,
}

/// Nanoseconds from `a` to `b`.
pub open spec fn nanos_between(a: Moment, b: Moment) -> int {
    (b.secs - a.secs) * 1_000_000_000 + b.nanos - a.nanos
}

/// What a fetched task does at `now`: a disabled task is skipped, a task
/// whose time is still to come waits until then, any other runs at once.
pub fn dispatch_step(enabled: bool, execute_at: Option<Moment>, now: Moment) -> (r: DispatchStep)
    requires
        now.nanos < 1_000_000_000,
        execute_at.is_some() ==> execute_at.unwrap().nanos < 1_000_000_000,
    ensures
        !enabled ==> r == DispatchStep::Skip,
        enabled && execute_at.is_some() && earlier(now, execute_at.unwrap()) ==> match r {
            DispatchStep::Wait { secs, nanos } => secs * 1_000_000_000 + nanos == nanos_between(
                now,
                execute_at.unwrap(),
            ) && nanos < 1_000_000_000,
            _ => false,
        },
        enabled && !(execute_at.is_some() && earlier(now, execute_at.unwrap())) ==> r
            == DispatchStep::RunNow,
{
    if !enabled {
        return DispatchStep::Skip;
    }
    match execute_at {
        Some(t) => {
            if is_earlier(now, t) {
                let total: i128 = (t.secs as i128 - now.secs as i128) * 1_000_000_000i128
                    + t.nanos as i128 - now.nanos as i128;
                proof {
                    assert(total > 0) by (nonlinear_arith)
                        requires
                            total == (t.secs - now.secs) * 1_000_000_000 + t.nanos - now.nanos,
                            t.secs > now.secs || (t.secs == now.secs && t.nanos > now.nanos),
                            t.nanos < 1_000_000_000,
                            now.nanos < 1_000_000_000,
                    ;
                    assert(total < (t.secs - now.secs + 1) * 1_000_000_000) by (nonlinear_arith)
                        requires
                            total == (t.secs - now.secs) * 1_000_000_000 + t.nanos - now.nanos,
                            t.nanos < 1_000_000_000,
                    ;
                }
                let secs: i128 = total / 1_000_000_000i128;
                let nanos: i128 = total % 1_000_000_000i128;
                proof {
                    assert(secs * 1_000_000_000 + nanos == total && 0 <= nanos < 1_000_000_000
                        && 0 <= secs) by (nonlinear_arith)
                        requires
                            secs == total / 1_000_000_000,
                            nanos == total % 1_000_000_000,
                            0 < total,
                    ;
                    assert(secs < t.secs - now.secs + 1) by (nonlinear_arith)
                        requires
                            secs * 1_000_000_000 + nanos == total,
                            0 <= nanos,
                            total < (t.secs - now.secs + 1) * 1_000_000_000,
                    ;
                }
                DispatchStep::Wait { secs: secs as u64, nanos: nanos as u32 }
            } else {
                DispatchStep::RunNow
            }
        },
        None => DispatchStep::RunNow,
    }
}

} // verus!
