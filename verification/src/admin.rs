//! What the admin pages change: events and scheduled tasks, and the removal
//! of items of which some are protected.

use vstd::prelude::*;
use crate::error::UniError;
use crate::membership::EventType;
use crate::scheduler::{TaskStatus, status_name, CronOutcome, TaskUpdate, plan_completion,
    complete_task, completion_ok, cron_outcome_ok, clock_now};
use crate::scoreboard::{Moment, earlier};
use crate::settings::kept;

verus! {

/// An event as stored (what the admin can change of it); `T` is the type of
/// its moments.
#[derive(Clone, Debug)]
pub struct EventRecord<T> {
    pub kind: EventType,
    pub title: String,
    pub description: Option<String>,
    pub hidden: bool,
    pub allow_join: bool,
    pub rules: String,
    pub flag_prefix: Option<String>,
    pub start_time: T,
    pub end_time: T,
}

/// A change of an event; a given description or flag prefix replaces the
/// stored one.
#[derive(Clone, Debug)]
pub struct PatchEventRequest<T> {
    pub kind: Option<EventType>,
    pub title: Option<String>,
    pub description: Option<String>,
    pub hidden: Option<bool>,
    pub allow_join: Option<bool>,
    pub rules: Option<String>,
    pub flag_prefix: Option<String>,
    pub start_time: Option<T>,
    pub end_time: Option<T>,
}

/// A field that a given value fills.
pub open spec fn filled<T>(old: Option<T>, new: Option<T>) -> Option<T> {
    match new {
        Some(v) => Some(v),
        None => old,
    }
}

pub open spec fn event_patched<T>(e: EventRecord<T>, p: PatchEventRequest<T>) -> EventRecord<T> {
    EventRecord {
        kind: kept(e.kind, p.kind),
        title: kept(e.title, p.title),
        description: filled(e.description, p.description),
        hidden: kept(e.hidden, p.hidden),
        allow_join: kept(e.allow_join, p.allow_join),
        rules: kept(e.rules, p.rules),
        flag_prefix: filled(e.flag_prefix, p.flag_prefix),
        start_time: kept(e.start_time, p.start_time),
        end_time: kept(e.end_time, p.end_time),
    }
}

impl<T> PatchEventRequest<T> {
    pub fn apply(self, e: EventRecord<T>) -> (r: EventRecord<T>)
        ensures
            r == event_patched(e, self),
            match self.kind {
                Some(v) => r.kind == v,
                None => r.kind == e.kind,
            },
            match self.title {
                Some(v) => r.title == v,
                None => r.title == e.title,
            },
            match self.description {
                Some(v) => r.description == Some(v),
                None => r.description == e.description,
            },
            match self.hidden {
                Some(v) => r.hidden == v,
                None => r.hidden == e.hidden,
            },
            match self.allow_join {
                Some(v) => r.allow_join == v,
                None => r.allow_join == e.allow_join,
            },
            match self.rules {
                Some(v) => r.rules == v,
                None => r.rules == e.rules,
            },
            match self.flag_prefix {
                Some(v) => r.flag_prefix == Some(v),
                None => r.flag_prefix == e.flag_prefix,
            },
            match self.start_time {
                Some(v) => r.start_time == v,
                None => r.start_time == e.start_time,
            },
            match self.end_time {
                Some(v) => r.end_time == v,
                None => r.end_time == e.end_time,
            },
    {
        let mut e = e;
        if let Some(k) = self.kind {
            e.kind = k;
        }
        if let Some(t) = self.title {
            e.title = t;
        }
        if let Some(d) = self.description {
            e.description = Some(d);
        }
        if let Some(h) = self.hidden {
            e.hidden = h;
        }
        if let Some(a) = self.allow_join {
            e.allow_join = a;
        }
        if let Some(r) = self.rules {
            e.rules = r;
        }
        if let Some(f) = self.flag_prefix {
            e.flag_prefix = Some(f);
        }
        if let Some(s) = self.start_time {
            e.start_time = s;
        }
        if let Some(x) = self.end_time {
            e.end_time = x;
        }
        e
    }
}

/// A change that gives no field leaves an event as it is, and making the
/// same change twice is making it once.
pub proof fn lemma_event_patch_laws<T>(e: EventRecord<T>, p: PatchEventRequest<T>)
    ensures
        event_patched(
            e,
            PatchEventRequest {
                kind: None,
                title: None,
                description: None,
                hidden: None,
                allow_join: None,
                rules: None,
                flag_prefix: None,
                start_time: None,
                end_time: None,
            },
        ) == e,
        event_patched(event_patched(e, p), p) == event_patched(e, p),
{
}

/// A scheduled task as stored; `T` is the type of its moments, `P` of its
/// payload.
#[derive(Clone, Debug)]
pub struct TaskRecord<T, P> {
    pub task_name: String,
    pub task_key: String,
    pub trigger_type: String,
    pub group_id: Option<u128>,
    pub cron_expr: Option<String>,
    pub execute_at: Option<T>,
    pub expires_at: Option<T>,
    pub payload: Option<P>,
    pub description: Option<String>,
    pub enabled: bool,
    pub protected: bool,
    pub status: String,
    pub error_msg: Option<String>,
}

/// The body of a request that creates a scheduled task.
#[derive(Clone, Debug)]
pub struct CreateScheduledTaskRequest<T, P> {
    pub task_name: String,
    pub task_key: String,
    pub trigger_type: String,
    pub group_id: Option<u128>,
    pub cron_expr: Option<String>,
    pub execute_at: Option<T>,
    pub expires_at: Option<T>,
    pub payload: Option<P>,
    pub description: Option<String>,
    pub enabled: bool,
    pub protected: bool,
}

impl<T, P> CreateScheduledTaskRequest<T, P> {
    /// The new task: as asked, pending, with no error.
    pub fn into_task(self) -> (r: TaskRecord<T, P>)
        ensures
            r.task_name == self.task_name,
            r.task_key == self.task_key,
            r.trigger_type == self.trigger_type,
            r.group_id == self.group_id,
            r.cron_expr == self.cron_expr,
            r.execute_at == self.execute_at,
            r.expires_at == self.expires_at,
            r.payload == self.payload,
            r.description == self.description,
            r.enabled == self.enabled,
            r.protected == self.protected,
            r.status@ == "pending"@,
            r.error_msg.is_none(),
    {
        TaskRecord {
            task_name: self.task_name,
            task_key: self.task_key,
            trigger_type: self.trigger_type,
            group_id: self.group_id,
            cron_expr: self.cron_expr,
            execute_at: self.execute_at,
            expires_at: self.expires_at,
            payload: self.payload,
            description: self.description,
            enabled: self.enabled,
            protected: self.protected,
            status: TaskStatus::Pending.name(),
            error_msg: None,
        }
    }
}

/// A change of a scheduled task; the optional columns can be cleared with
/// `Some(None)`.
#[derive(Clone, Debug)]
pub struct PatchScheduledTaskRequest<T, P> {
    pub task_name: Option<String>,
    pub task_key: Option<String>,
    pub trigger_type: Option<String>,
    pub group_id: Option<Option<u128>>,
    pub cron_expr: Option<Option<String>>,
    pub execute_at: Option<Option<T>>,
    pub expires_at: Option<Option<T>>,
    pub payload: Option<Option<P>>,
    pub description: Option<Option<String>>,
    pub enabled: Option<bool>,
    pub protected: Option<bool>,
    pub status: Option<String>,
    pub error_msg: Option<Option<String>>,
}

pub open spec fn task_patched<T, P>(t: TaskRecord<T, P>, p: PatchScheduledTaskRequest<T, P>) -> TaskRecord<
    T,
    P,
> {
    TaskRecord {
        task_name: kept(t.task_name, p.task_name),
        task_key: kept(t.task_key, p.task_key),
        trigger_type: kept(t.trigger_type, p.trigger_type),
        group_id: kept(t.group_id, p.group_id),
        cron_expr: kept(t.cron_expr, p.cron_expr),
        execute_at: kept(t.execute_at, p.execute_at),
        expires_at: kept(t.expires_at, p.expires_at),
        payload: kept(t.payload, p.payload),
        description: kept(t.description, p.description),
        enabled: kept(t.enabled, p.enabled),
        protected: kept(t.protected, p.protected),
        status: kept(t.status, p.status),
        error_msg: kept(t.error_msg, p.error_msg),
    }
}

/// A field after a change: the new value when one is given.
fn pick<X>(old: X, new: Option<X>) -> (r: X)
    ensures
        r == kept(old, new),
{
    match new {
        Some(v) => v,
        None => old,
    }
}

impl<T, P> PatchScheduledTaskRequest<T, P> {
    pub fn apply(self, t: TaskRecord<T, P>) -> (r: TaskRecord<T, P>)
        ensures
            r == task_patched(t, self),
            match self.task_name {
                Some(v) => r.task_name == v,
                None => r.task_name == t.task_name,
            },
            match self.task_key {
                Some(v) => r.task_key == v,
                None => r.task_key == t.task_key,
            },
            match self.trigger_type {
                Some(v) => r.trigger_type == v,
                None => r.trigger_type == t.trigger_type,
            },
            match self.group_id {
                Some(v) => r.group_id == v,
                None => r.group_id == t.group_id,
            },
            match self.cron_expr {
                Some(v) => r.cron_expr == v,
                None => r.cron_expr == t.cron_expr,
            },
            match self.execute_at {
                Some(v) => r.execute_at == v,
                None => r.execute_at == t.execute_at,
            },
            match self.expires_at {
                Some(v) => r.expires_at == v,
                None => r.expires_at == t.expires_at,
            },
            match self.payload {
                Some(v) => r.payload == v,
                None => r.payload == t.payload,
            },
            match self.description {
                Some(v) => r.description == v,
                None => r.description == t.description,
            },
            match self.enabled {
                Some(v) => r.enabled == v,
                None => r.enabled == t.enabled,
            },
            match self.protected {
                Some(v) => r.protected == v,
                None => r.protected == t.protected,
            },
            match self.status {
                Some(v) => r.status == v,
                None => r.status == t.status,
            },
            match self.error_msg {
                Some(v) => r.error_msg == v,
                None => r.error_msg == t.error_msg,
            },
    {
        TaskRecord {
            task_name: pick(t.task_name, self.task_name),
            task_key: pick(t.task_key, self.task_key),
            trigger_type: pick(t.trigger_type, self.trigger_type),
            group_id: pick(t.group_id, self.group_id),
            cron_expr: pick(t.cron_expr, self.cron_expr),
            execute_at: pick(t.execute_at, self.execute_at),
            expires_at: pick(t.expires_at, self.expires_at),
            payload: pick(t.payload, self.payload),
            description: pick(t.description, self.description),
            enabled: pick(t.enabled, self.enabled),
            protected: pick(t.protected, self.protected),
            status: pick(t.status, self.status),
            error_msg: pick(t.error_msg, self.error_msg),
        }
    }
}

/// Running a task by hand: it becomes pending, due at `now`.
pub fn run_now<T, P>(t: TaskRecord<T, P>, now: T) -> (r: TaskRecord<T, P>)
    ensures
        r.status@ == "pending"@,
        r.execute_at == Some(now),
        r.task_name == t.task_name,
        r.task_key == t.task_key,
        r.trigger_type == t.trigger_type,
        r.cron_expr == t.cron_expr,
        r.enabled == t.enabled,
        r.protected == t.protected,
        r.error_msg == t.error_msg,
{
    let mut t = t;
    t.status = TaskStatus::Pending.name();
    t.execute_at = Some(now);
    t
}

/// A task after a run is recorded: the task, when it last ran and when its
/// row was last updated.
#[derive(Clone, Debug)]
pub struct TaskCompletion<P> {
    pub task: TaskRecord<Moment, P>,
    pub last_run_at: Option<Moment>,
    pub updated_at: Moment,
}

/// The columns that recording a run leaves as they were.
pub open spec fn same_settings<P>(a: TaskRecord<Moment, P>, b: TaskRecord<Moment, P>) -> bool {
    &&& a.task_name == b.task_name
    &&& a.task_key == b.task_key
    &&& a.trigger_type == b.trigger_type
    &&& a.group_id == b.group_id
    &&& a.cron_expr == b.cron_expr
    &&& a.expires_at == b.expires_at
    &&& a.payload == b.payload
    &&& a.description == b.description
    &&& a.enabled == b.enabled
    &&& a.protected == b.protected
}

/// The task `t` after a run at `now` that ended with `run_error` (if any),
/// where `cron` is what the task's cron expression gave: it last ran and was
/// updated at `now`; a failed run marks it failed with the error; else a
/// cron task is pending again at its next run, completed when there is none
/// or it falls after the task's expiry, failed when its expression does not
/// parse, and left as it was when it has none; any other task is completed.
pub open spec fn run_recorded<P>(
    c: TaskCompletion<P>,
    t: TaskRecord<Moment, P>,
    run_error: Option<Seq<char>>,
    cron: CronOutcome,
    now: Moment,
) -> bool {
    let u = c.task;
    let unchanged_error = u.error_msg == t.error_msg;
    let unchanged_due = u.execute_at == t.execute_at;
    &&& c.last_run_at == Some(now)
    &&& c.updated_at == now
    &&& same_settings(u, t)
    &&& match run_error {
        Some(m) => u.status@ == status_name(TaskStatus::Failed) && u.error_msg.is_some()
            && u.error_msg.unwrap()@ == m && unchanged_due,
        None => if t.trigger_type@ == "cron"@ {
            match cron {
                CronOutcome::NoExpression => u.status == t.status && unchanged_error
                    && unchanged_due,
                CronOutcome::Invalid(m) => u.status@ == status_name(TaskStatus::Failed)
                    && u.error_msg.is_some() && u.error_msg.unwrap()@ == "Cron 解析失败: "@ + m@
                    && unchanged_due,
                CronOutcome::NoNextRun => u.status@ == status_name(TaskStatus::Completed)
                    && unchanged_error && unchanged_due,
                CronOutcome::NextRun(x) => if t.expires_at.is_some() && earlier(
                    t.expires_at.unwrap(),
                    x,
                ) {
                    u.status@ == status_name(TaskStatus::Completed) && unchanged_error
                        && unchanged_due
                } else {
                    u.status@ == status_name(TaskStatus::Pending) && unchanged_error
                        && u.execute_at == Some(x)
                },
            }
        } else {
            u.status@ == status_name(TaskStatus::Completed) && unchanged_error && unchanged_due
        },
    }
}

/// The task with a run's changes stored: a given column replaces the stored
/// one, and the run times are `now`.
pub open spec fn update_stored<P>(c: TaskCompletion<P>, t: TaskRecord<Moment, P>, u: TaskUpdate, now: Moment) -> bool {
    &&& c.last_run_at == Some(now)
    &&& c.updated_at == now
    &&& same_settings(c.task, t)
    &&& match u.status {
        Some(s) => c.task.status@ == status_name(s),
        None => c.task.status == t.status,
    }
    &&& match u.error_msg {
        Some(m) => c.task.error_msg == Some(m),
        None => c.task.error_msg == t.error_msg,
    }
    &&& match u.execute_at {
        Some(x) => c.task.execute_at == Some(x),
        None => c.task.execute_at == t.execute_at,
    }
}

fn store_update<P>(task: TaskRecord<Moment, P>, u: TaskUpdate, now: Moment) -> (r: TaskCompletion<P>)
    ensures
        update_stored(r, task, u, now),
{
    let mut t = task;
    match u.status {
        Some(s) => {
            t.status = s.name();
        },
        None => {},
    }
    match u.error_msg {
        Some(m) => {
            t.error_msg = Some(m);
        },
        None => {},
    }
    match u.execute_at {
        Some(x) => {
            t.execute_at = Some(x);
        },
        None => {},
    }
    TaskCompletion { task: t, last_run_at: Some(now), updated_at: now }
}

/// Records a run of `task` at `now`, given the run's error (if any) and what
/// the task's cron expression gave.
pub fn record_run<P>(
    task: TaskRecord<Moment, P>,
    run_error: Option<String>,
    cron: CronOutcome,
    now: Moment,
) -> (r: TaskCompletion<P>)
    ensures
        run_recorded(
            r,
            task,
            match run_error {
                Some(m) => Some(m@),
                None => None,
            },
            cron,
            now,
        ),
{
    let u = plan_completion(run_error, task.trigger_type.as_str(), cron, task.expires_at);
    store_update(task, u, now)
}

/// The text of a run's error, if any.
pub open spec fn error_text(e: Option<String>) -> Option<Seq<char>> {
    match e {
        Some(m) => Some(m@),
        None => None,
    }
}

/// Records a run of `task` that ended with `run_error` (if any), at the
/// present moment. The task's cron expression is read only for a cron task
/// whose run succeeded, for its first run after that moment.
pub fn mark_done<P>(task: TaskRecord<Moment, P>, run_error: Option<String>) -> (r: TaskCompletion<P>)
    ensures
        exists|now: Moment, c: CronOutcome|
            {
                &&& #[trigger] run_recorded(r, task, error_text(run_error), c, now)
                &&& run_error.is_none() && task.trigger_type@ == "cron"@ ==> cron_outcome_ok(
                    c,
                    task.cron_expr,
                    now,
                )
            },
{
    let now = clock_now();
    let ghost t0 = task;
    let ghost ge = error_text(run_error);
    let ghost failed = run_error.is_some();
    let u = complete_task(run_error, task.trigger_type.as_str(), &task.cron_expr, task.expires_at, now);
    let ghost gu = u;
    let r = store_update(task, u, now);
    proof {
        if !failed && t0.trigger_type@ == "cron"@ {
            let c = choose|c: CronOutcome|
                completion_ok(gu, None, t0.trigger_type@, c, t0.expires_at) && cron_outcome_ok(
                    c,
                    t0.cron_expr,
                    now,
                );
            assert(run_recorded(r, t0, ge, c, now));
        } else {
            assert(run_recorded(r, t0, ge, CronOutcome::NoExpression, now));
        }
    }
    r
}

/// An item named for removal, as found: whether it is protected, and the
/// label that names it in a refusal.
#[derive(Clone, Debug)]
pub struct RemovalCandidate {
    pub protected: bool,
    pub label: String,
}

/// What removing several items does: the items removed (positions, in
/// order) and, if it stopped at a protected item, the refusal.
#[derive(Debug)]
pub struct RemovalPlan {
    pub removed: Vec<usize>,
    pub refusal: Option<UniError>,
}

/// Whether a named item was found and is protected.
pub open spec fn is_protected(o: Option<RemovalCandidate>) -> bool {
    match o {
        Some(c) => c.protected,
        None => false,
    }
}

/// The first protected item among those found, if any.
pub open spec fn first_protected(items: Seq<Option<RemovalCandidate>>) -> Option<int> {
    if exists|k: int| 0 <= k < items.len() && is_protected(#[trigger] items[k]) {
        Some(
            choose|k: int|
                0 <= k < items.len() && is_protected(items[k]) && forall|j: int|
                    0 <= j < k ==> !is_protected(#[trigger] items[j]),
        )
    } else {
        None
    }
}

/// The items found among the first `n`, by position.
pub open spec fn found_upto(items: Seq<Option<RemovalCandidate>>, n: int) -> Seq<usize>
    decreases n,
{
    if n <= 0 {
        Seq::empty()
    } else if items[n - 1].is_some() {
        found_upto(items, n - 1).push((n - 1) as usize)
    } else {
        found_upto(items, n - 1)
    }
}

/// Removing the items named (each found or not): items are removed in order
/// until a protected one, which stops the removal with the refusal
/// "protected {what} can not be deleted: {label}"; items not found are
/// passed over.
pub fn plan_removal(items: &Vec<Option<RemovalCandidate>>, what: &str) -> (r: RemovalPlan)
    ensures
        match first_protected(items@) {
            Some(k) => r.removed@ == found_upto(items@, k) && (r.refusal matches Some(
                UniError::CustomError(m),
            ) && m@ == "protected "@ + what@ + " can not be deleted: "@ + items@[k].unwrap().label@),
            None => r.removed@ == found_upto(items@, items.len() as int) && r.refusal.is_none(),
        },
{
    let mut removed: Vec<usize> = Vec::new();
    let mut i: usize = 0;
    while i < items.len()
        invariant
            i <= items.len(),
            removed@ == found_upto(items@, i as int),
            forall|j: int| 0 <= j < i ==> !is_protected(#[trigger] items@[j]),
        decreases items.len() - i,
    {
        match &items[i] {
            Some(c) => {
                if c.protected {
                    proof {
                        assert(is_protected(items@[i as int]));
                        let k = choose|k: int|
                            0 <= k < items@.len() && is_protected(items@[k]) && forall|j: int|
                                0 <= j < k ==> !is_protected(#[trigger] items@[j]);
                        assert(0 <= i < items@.len() && is_protected(items@[i as int]) && forall|
                            j: int,
                        | 0 <= j < i ==> !is_protected(#[trigger] items@[j]));
                        if k < i {
                            assert(!is_protected(items@[k]));
                        }
                        if k > i {
                            assert(!is_protected(items@[i as int]));
                        }
                    }
                    let mut m = String::from_str("protected ");
                    m.append(what);
                    m.append(" can not be deleted: ");
                    m.append(c.label.as_str());
                    return RemovalPlan { removed, refusal: Some(UniError::CustomError(m)) };
                }
                removed.push(i);
            },
            None => {},
        }
        i = i + 1;
    }
    RemovalPlan { removed, refusal: None }
}

} // verus!
