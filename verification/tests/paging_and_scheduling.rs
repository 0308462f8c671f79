use floatctf_api::pagination::{page_index, plan_listing, window, PagePlan};
use floatctf_api::scheduler::{
    complete_task, cron_outcome, dispatch_step, plan_completion, CronOutcome, DispatchStep, TaskStatus,
};
use floatctf_api::admin::{mark_done, record_run, TaskRecord};
use floatctf_api::kv::KvStore;
use floatctf_api::scoreboard::Moment;

fn m(secs: i64) -> Moment {
    Moment { secs, nanos: 0 }
}

#[test]
fn page_index_clamps_to_the_last_page() {
    assert_eq!(page_index(35, 10, 1), 0);
    assert_eq!(page_index(35, 10, 4), 3);
    assert_eq!(page_index(35, 10, 9), 3);
    assert_eq!(page_index(0, 10, 3), 0);
    assert_eq!(page_index(40, 10, 4), 3);
}

#[test]
fn listing_plans() {
    assert_eq!(plan_listing(None, Some(1), 5), PagePlan::Everything);
    assert_eq!(plan_listing(Some(10), None, 5), PagePlan::Everything);
    assert_eq!(plan_listing(Some(0), Some(1), 5), PagePlan::Nothing);
    assert_eq!(plan_listing(Some(10), Some(0), 5), PagePlan::Nothing);
    assert_eq!(plan_listing(Some(2), Some(2), 5), PagePlan::Page { index: 1, limit: 2 });
}

#[test]
fn pages_split_the_rows() {
    // every row is read by the page row / limit + 1
    let (total, limit) = (23u64, 5u64);
    for row in 0..total {
        let page = row / limit + 1;
        let idx = page_index(total, limit, page);
        let start = idx * limit;
        let end = std::cmp::min(start + limit, total);
        assert!(start <= row && row < end);
    }
}

#[test]
fn windows_of_lists() {
    let v: Vec<u32> = (0..10).collect();
    assert_eq!(window(v.clone(), Some(3), Some(4)), vec![3, 4, 5, 6]);
    assert_eq!(window(v.clone(), Some(8), Some(4)), vec![8, 9]);
    assert_eq!(window(v.clone(), Some(20), None), Vec::<u32>::new());
    assert_eq!(window(v.clone(), None, None), v);
    let big: Vec<u32> = (0..60).collect();
    assert_eq!(window(big, None, None).len(), 50);
}

#[test]
fn completion_of_runs() {
    let u = plan_completion(Some("boom".into()), "cron", CronOutcome::NoExpression, None);
    assert_eq!(u.status, Some(TaskStatus::Failed));
    assert_eq!(u.error_msg, Some("boom".to_string()));
    let u = plan_completion(None, "startup", CronOutcome::NoExpression, None);
    assert_eq!(u.status, Some(TaskStatus::Completed));
    let u = plan_completion(None, "once", CronOutcome::NoExpression, None);
    assert_eq!(u.status, Some(TaskStatus::Completed));
    let u = plan_completion(None, "cron", CronOutcome::NoExpression, None);
    assert!(u.status.is_none() && u.error_msg.is_none() && u.execute_at.is_none());
    let u = plan_completion(None, "cron", CronOutcome::Invalid("bad field".into()), None);
    assert_eq!(u.status, Some(TaskStatus::Failed));
    assert_eq!(u.error_msg, Some("Cron 解析失败: bad field".to_string()));
    let u = plan_completion(None, "cron", CronOutcome::NoNextRun, None);
    assert_eq!(u.status, Some(TaskStatus::Completed));
    let u = plan_completion(None, "cron", CronOutcome::NextRun(m(100)), Some(m(50)));
    assert_eq!(u.status, Some(TaskStatus::Completed));
    assert!(u.execute_at.is_none());
    let u = plan_completion(None, "cron", CronOutcome::NextRun(m(100)), Some(m(100)));
    assert_eq!(u.status, Some(TaskStatus::Pending));
    assert_eq!(u.execute_at, Some(m(100)));
    assert_eq!(TaskStatus::Pending.name(), "pending");
    assert_eq!(TaskStatus::Failed.name(), "failed");
}

#[test]
fn cron_expressions_are_read_by_the_cron_crate() {
    let at = m(1_704_069_000); // 2024-01-01T00:30:00Z
    assert!(matches!(cron_outcome(&None, at), CronOutcome::NoExpression));
    assert!(matches!(cron_outcome(&Some("not a cron".into()), at), CronOutcome::Invalid(_)));
    match cron_outcome(&Some("0 0 * * * * *".into()), at) {
        CronOutcome::NextRun(t) => assert_eq!(t, m(1_704_070_800)),
        _ => panic!("an hourly schedule has a next run"),
    }
    assert!(matches!(cron_outcome(&Some("0 0 0 1 1 * 2020".into()), at), CronOutcome::NoNextRun));
    let u = complete_task(None, "cron", &Some("garbage".into()), None, at);
    assert_eq!(u.status, Some(TaskStatus::Failed));
    assert!(u.error_msg.unwrap().starts_with("Cron 解析失败: "));
    let u = complete_task(None, "cron", &Some("0 0 * * * * *".into()), None, at);
    assert_eq!(u.status, Some(TaskStatus::Pending));
    assert_eq!(u.execute_at, Some(m(1_704_070_800)));
    let u = complete_task(None, "cron", &Some("0 0 * * * * *".into()), Some(m(1_704_070_000)), at);
    assert_eq!(u.status, Some(TaskStatus::Completed));
    assert_eq!(u.execute_at, None);
    let u = complete_task(Some("e".into()), "cron", &Some("garbage".into()), None, at);
    assert_eq!(u.error_msg, Some("e".to_string()));
}

#[test]
fn dispatch_waits_for_future_tasks() {
    assert_eq!(dispatch_step(false, None, m(0)), DispatchStep::Skip);
    assert_eq!(dispatch_step(true, None, m(0)), DispatchStep::RunNow);
    assert_eq!(dispatch_step(true, Some(m(5)), m(10)), DispatchStep::RunNow);
    assert_eq!(dispatch_step(true, Some(m(10)), m(10)), DispatchStep::RunNow);
    assert_eq!(
        dispatch_step(true, Some(Moment { secs: 12, nanos: 100 }), Moment { secs: 10, nanos: 500 }),
        DispatchStep::Wait { secs: 1, nanos: 999_999_600 }
    );
}

fn task(trigger: &str, cron: Option<&str>, expires: Option<Moment>) -> TaskRecord<Moment, String> {
    TaskRecord {
        task_name: "t".into(),
        task_key: "k".into(),
        trigger_type: trigger.into(),
        group_id: None,
        cron_expr: cron.map(|c| c.to_string()),
        execute_at: Some(m(5)),
        expires_at: expires,
        payload: None,
        description: None,
        enabled: true,
        protected: false,
        status: "running".into(),
        error_msg: None,
    }
}

#[test]
fn recorded_runs_follow_the_outcome() {
    let now = m(100);
    let c = record_run(task("once", None, None), Some("boom".into()), CronOutcome::NoExpression, now);
    assert_eq!(c.task.status, "failed");
    assert_eq!(c.task.error_msg.as_deref(), Some("boom"));
    assert_eq!(c.task.execute_at, Some(m(5)));
    assert_eq!(c.last_run_at, Some(now));
    assert_eq!(c.updated_at, now);
    let c = record_run(task("cron", Some("x"), None), None, CronOutcome::NextRun(m(160)), now);
    assert_eq!(c.task.status, "pending");
    assert_eq!(c.task.execute_at, Some(m(160)));
    let c = record_run(task("cron", Some("x"), Some(m(150))), None, CronOutcome::NextRun(m(160)), now);
    assert_eq!(c.task.status, "completed");
    assert_eq!(c.task.execute_at, Some(m(5)));
    let c = record_run(task("cron", Some("x"), Some(m(160))), None, CronOutcome::NextRun(m(160)), now);
    assert_eq!(c.task.status, "pending");
    let c = record_run(task("cron", Some("x"), None), None, CronOutcome::Invalid("bad".into()), now);
    assert_eq!(c.task.status, "failed");
    assert_eq!(c.task.error_msg.as_deref(), Some("Cron 解析失败: bad"));
    let c = record_run(task("cron", None, None), None, CronOutcome::NoExpression, now);
    assert_eq!(c.task.status, "running");
    let c = record_run(task("startup", None, None), None, CronOutcome::NoExpression, now);
    assert_eq!(c.task.status, "completed");
    let c = mark_done(task("cron", Some("not a cron"), None), None);
    assert_eq!(c.task.status, "failed");
    assert!(c.task.error_msg.unwrap().starts_with("Cron 解析失败: "));
    let c = mark_done(task("once", None, None), None);
    assert!(c.last_run_at.is_some());
    assert_eq!(c.task.status, "completed");
    assert_eq!(c.task.task_key, "k");
}

#[test]
fn cached_values_are_read_back_until_they_expire() {
    let mut kv = KvStore::new();
    assert_eq!(kv.kv_get("a", 0), None);
    kv.kv_set("a", "1".into(), Some(60), 100);
    kv.kv_set("b", "2".into(), None, 100);
    assert_eq!(kv.kv_get("a", 159).as_deref(), Some("1"));
    assert_eq!(kv.kv_get("a", 160), None);
    assert_eq!(kv.kv_get("a", 100), None);
    assert_eq!(kv.kv_get("b", i64::MAX).as_deref(), Some("2"));
    kv.kv_set("b", "3".into(), Some(10), 200);
    assert_eq!(kv.kv_get("b", 205).as_deref(), Some("3"));
    kv.kv_del("b");
    assert_eq!(kv.kv_get("b", 205), None);
}
