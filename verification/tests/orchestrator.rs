use regulators::errors::UpdateOutcome;
use regulators::index;
use regulators::model::{JsonValue, Regulator, Status, Workflow, parse_status, status_is_terminal, status_text};
use regulators::orchestrator::{any_task_pending, build_tasks, decide_workflow_update, prepare_submission};
use regulators::store::Store;

fn reg(name: &str) -> Regulator {
    Regulator { name: name.to_string(), context: Vec::new() }
}

fn submit_ok(store: &mut Store, names: &[&str]) -> String {
    let regulators: Vec<Regulator> = names.iter().map(|n| reg(n)).collect();
    store.submit(regulators).expect("fresh ids should not collide")
}

fn task_ids(store: &Store, wid: &String) -> Vec<String> {
    store
        .list_tasks(wid)
        .iter()
        .map(|t| t.id.clone())
        .collect()
}

fn workflow_status(store: &Store, wid: &String) -> Status {
    store.get_workflow(wid).expect("workflow should exist").status
}

fn json_eq(a: &JsonValue, b: &JsonValue) -> bool {
    match (a, b) {
        (JsonValue::Null, JsonValue::Null) => true,
        (JsonValue::Bool(x), JsonValue::Bool(y)) => x == y,
        (JsonValue::Number(x), JsonValue::Number(y)) => x == y,
        (JsonValue::Text(x), JsonValue::Text(y)) => x == y,
        (JsonValue::Array(x), JsonValue::Array(y)) => {
            x.len() == y.len() && x.iter().zip(y.iter()).all(|(u, v)| json_eq(u, v))
        },
        (JsonValue::Object(x), JsonValue::Object(y)) => {
            x.len() == y.len()
                && x.iter().zip(y.iter()).all(|((ka, va), (kb, vb))| ka == kb && json_eq(va, vb))
        },
        _ => false,
    }
}

#[test]
fn index_greets() {
    assert_eq!(index(), "Regulators!");
}

#[test]
fn submit_empty_regulator_list() {
    let mut store = Store::new();
    let wid = submit_ok(&mut store, &[]);
    assert_eq!(wid.len(), 36);
    assert_eq!(workflow_status(&store, &wid), Status::InProgress);
    assert_eq!(store.list_tasks(&wid).len(), 0);
    assert!(!store.has_pending_tasks(&wid));
}

#[test]
fn submit_creates_one_task_per_regulator() {
    let mut store = Store::new();
    let wid = submit_ok(&mut store, &["checkA", "checkB"]);
    let tasks = store.list_tasks(&wid);
    assert_eq!(tasks.len(), 2);
    assert_eq!(tasks[0].regulator.name, "checkA");
    assert_eq!(tasks[1].regulator.name, "checkB");
    for t in &tasks {
        assert_eq!(t.workflow_id, wid);
        assert_eq!(t.status, Status::InProgress);
        assert_eq!(t.id.len(), 36);
    }
    assert_ne!(tasks[0].id, tasks[1].id);
    assert_eq!(workflow_status(&store, &wid), Status::InProgress);
}

#[test]
fn submit_forwards_context_verbatim() {
    let context = vec![
        ("limit".to_string(), JsonValue::Number("42".to_string())),
        ("region".to_string(), JsonValue::Text("us-east-1".to_string())),
        ("strict".to_string(), JsonValue::Bool(true)),
        ("note".to_string(), JsonValue::Null),
        (
            "tags".to_string(),
            JsonValue::Array(vec![
                JsonValue::Text("a".to_string()),
                JsonValue::Object(vec![("k".to_string(), JsonValue::Number("7".to_string()))]),
            ]),
        ),
    ];
    let mut store = Store::new();
    let regulators = vec![Regulator { name: "checkA".to_string(), context }];
    let wid = store.submit(regulators).expect("fresh ids should not collide");
    let tasks = store.list_tasks(&wid);
    assert_eq!(tasks.len(), 1);
    let got = &tasks[0].regulator.context;
    assert_eq!(got.len(), 5);
    assert_eq!(got[0].0, "limit");
    assert!(json_eq(&got[0].1, &JsonValue::Number("42".to_string())));
    assert_eq!(got[4].0, "tags");
    assert!(json_eq(
        &got[4].1,
        &JsonValue::Array(vec![
            JsonValue::Text("a".to_string()),
            JsonValue::Object(vec![("k".to_string(), JsonValue::Number("7".to_string()))]),
        ])
    ));
}

#[test]
fn succeeded_update_is_idempotent_on_succeeded_workflow() {
    let mut store = Store::new();
    let wid = submit_ok(&mut store, &["checkA"]);
    let ids = task_ids(&store, &wid);
    let out = store.update_task_status(&wid, &ids[0], &"Succeeded".to_string());
    assert_eq!(out, UpdateOutcome::Accepted);
    assert_eq!(workflow_status(&store, &wid), Status::Succeeded);
    let out = store.update_task_status(&wid, &ids[0], &"Succeeded".to_string());
    assert_eq!(out, UpdateOutcome::Accepted);
    assert_eq!(workflow_status(&store, &wid), Status::Succeeded);
}

#[test]
fn cascade_completes_exactly_when_no_task_pending() {
    let mut store = Store::new();
    let wid = submit_ok(&mut store, &["a", "b", "c"]);
    let ids = task_ids(&store, &wid);
    for order in [[2, 0, 1], [1, 2, 0]] {
        let mut store = Store::new();
        let wid = submit_ok(&mut store, &["a", "b", "c"]);
        let ids = task_ids(&store, &wid);
        for (n, i) in order.iter().enumerate() {
            assert_eq!(workflow_status(&store, &wid), Status::InProgress);
            let out = store.update_task_status(&wid, &ids[*i], &"Succeeded".to_string());
            assert_eq!(out, UpdateOutcome::Accepted);
            if n + 1 < order.len() {
                assert!(store.has_pending_tasks(&wid));
                assert_eq!(workflow_status(&store, &wid), Status::InProgress);
            } else {
                assert!(!store.has_pending_tasks(&wid));
                assert_eq!(workflow_status(&store, &wid), Status::Succeeded);
            }
        }
    }
    // the outer store was left untouched by the inner runs
    assert_eq!(workflow_status(&store, &wid), Status::InProgress);
    assert_eq!(ids.len(), 3);
}

#[test]
fn failed_task_fails_workflow_in_progress() {
    let mut store = Store::new();
    let wid = submit_ok(&mut store, &["a", "b", "c"]);
    let ids = task_ids(&store, &wid);
    let out = store.update_task_status(&wid, &ids[1], &"Failed".to_string());
    assert_eq!(out, UpdateOutcome::Accepted);
    assert_eq!(workflow_status(&store, &wid), Status::Failed);
    let tasks = store.list_tasks(&wid);
    assert_eq!(tasks[0].status, Status::InProgress);
    assert_eq!(tasks[1].status, Status::Failed);
    assert_eq!(tasks[2].status, Status::InProgress);
}

#[test]
fn failed_report_after_completion_is_a_no_op() {
    let mut store = Store::new();
    let wid = submit_ok(&mut store, &["checkA", "checkB"]);
    let ids = task_ids(&store, &wid);
    let out = store.update_task_status(&wid, &ids[0], &"Succeeded".to_string());
    assert_eq!(out, UpdateOutcome::Accepted);
    assert_eq!(workflow_status(&store, &wid), Status::InProgress);
    let out = store.update_task_status(&wid, &ids[1], &"Succeeded".to_string());
    assert_eq!(out, UpdateOutcome::Accepted);
    assert_eq!(workflow_status(&store, &wid), Status::Succeeded);
    let out = store.update_task_status(&wid, &ids[1], &"Failed".to_string());
    assert_eq!(out, UpdateOutcome::Accepted);
    assert_eq!(workflow_status(&store, &wid), Status::Succeeded);
}

#[test]
fn unknown_task_reports_not_found_and_writes_nothing() {
    let mut store = Store::new();
    let wid = submit_ok(&mut store, &["checkA"]);
    let out = store.update_task_status(&wid, &"no-such-task".to_string(), &"Succeeded".to_string());
    assert_eq!(out, UpdateOutcome::NotFound);
    let out = store.update_task_status(
        &"no-such-workflow".to_string(),
        &"no-such-task".to_string(),
        &"Failed".to_string(),
    );
    assert_eq!(out, UpdateOutcome::NotFound);
    assert_eq!(workflow_status(&store, &wid), Status::InProgress);
    let tasks = store.list_tasks(&wid);
    assert_eq!(tasks.len(), 1);
    assert_eq!(tasks[0].status, Status::InProgress);
}

#[test]
fn invalid_status_reports_bad_request_and_writes_nothing() {
    let mut store = Store::new();
    let wid = submit_ok(&mut store, &["checkA"]);
    let ids = task_ids(&store, &wid);
    for bad in ["Cancelled", "succeeded", "", "Done"] {
        let out = store.update_task_status(&wid, &ids[0], &bad.to_string());
        assert_eq!(out, UpdateOutcome::BadRequest);
        assert_eq!(workflow_status(&store, &wid), Status::InProgress);
        assert_eq!(store.list_tasks(&wid)[0].status, Status::InProgress);
    }
}

#[test]
fn in_progress_report_touches_only_the_task() {
    let mut store = Store::new();
    let wid = submit_ok(&mut store, &["checkA", "checkB"]);
    let ids = task_ids(&store, &wid);
    let out = store.update_task_status(&wid, &ids[0], &"InProgress".to_string());
    assert_eq!(out, UpdateOutcome::Accepted);
    assert_eq!(workflow_status(&store, &wid), Status::InProgress);
    // complete the workflow, then re-report a task as in progress: the
    // terminal workflow status is final
    store.update_task_status(&wid, &ids[0], &"Succeeded".to_string());
    store.update_task_status(&wid, &ids[1], &"Succeeded".to_string());
    assert_eq!(workflow_status(&store, &wid), Status::Succeeded);
    let out = store.update_task_status(&wid, &ids[0], &"InProgress".to_string());
    assert_eq!(out, UpdateOutcome::Accepted);
    assert_eq!(workflow_status(&store, &wid), Status::Succeeded);
    assert!(store.has_pending_tasks(&wid));
}

#[test]
fn get_task_finds_by_composite_key() {
    let mut store = Store::new();
    let wid = submit_ok(&mut store, &["checkA"]);
    let other = submit_ok(&mut store, &["checkB"]);
    let ids = task_ids(&store, &wid);
    let t = store.get_task(&wid, &ids[0]).expect("task should exist");
    assert_eq!(t.regulator.name, "checkA");
    assert!(store.get_task(&other, &ids[0]).is_none());
    assert!(store.get_task(&wid, &"no-such-task".to_string()).is_none());
    assert!(store.get_workflow(&"no-such-workflow".to_string()).is_none());
}

#[test]
fn workflow_overview_reports_status_and_tasks() {
    let mut store = Store::new();
    let wid = submit_ok(&mut store, &["a", "b"]);
    let ids = task_ids(&store, &wid);
    store.update_task_status(&wid, &ids[0], &"Failed".to_string());
    let (status, tasks) = store.workflow_overview(&wid).expect("workflow should exist");
    assert_eq!(status, Status::Failed);
    assert_eq!(tasks.len(), 2);
    assert_eq!(tasks[0].status, Status::Failed);
    assert_eq!(tasks[1].status, Status::InProgress);
    assert!(store.workflow_overview(&"absent".to_string()).is_none());
}

#[test]
fn list_tasks_filters_by_workflow() {
    let mut store = Store::new();
    let w1 = submit_ok(&mut store, &["a", "b"]);
    let w2 = submit_ok(&mut store, &["c"]);
    assert_eq!(store.list_tasks(&w1).len(), 2);
    assert_eq!(store.list_tasks(&w2).len(), 1);
    assert_eq!(store.list_tasks(&w2)[0].regulator.name, "c");
    assert_eq!(store.list_tasks(&"absent".to_string()).len(), 0);
}

#[test]
fn parse_status_accepts_exactly_the_enumerated_set() {
    assert_eq!(parse_status(&"InProgress".to_string()), Some(Status::InProgress));
    assert_eq!(parse_status(&"Failed".to_string()), Some(Status::Failed));
    assert_eq!(parse_status(&"Succeeded".to_string()), Some(Status::Succeeded));
    assert_eq!(parse_status(&"inprogress".to_string()), None);
    assert_eq!(parse_status(&"".to_string()), None);
    assert_eq!(parse_status(&"Succeeded ".to_string()), None);
}

#[test]
fn status_text_parses_back() {
    for s in [Status::InProgress, Status::Failed, Status::Succeeded] {
        assert_eq!(parse_status(&status_text(s).to_string()), Some(s));
    }
    assert!(!status_is_terminal(Status::InProgress));
    assert!(status_is_terminal(Status::Failed));
    assert!(status_is_terminal(Status::Succeeded));
}

#[test]
fn decide_workflow_update_follows_the_policy() {
    // terminal workflow status is final
    assert_eq!(decide_workflow_update(Status::Failed, Status::Succeeded, false), None);
    assert_eq!(decide_workflow_update(Status::Succeeded, Status::Failed, false), None);
    // a failed task fails a workflow in progress, pending or not
    assert_eq!(
        decide_workflow_update(Status::Failed, Status::InProgress, true),
        Some(Status::Failed)
    );
    assert_eq!(
        decide_workflow_update(Status::Failed, Status::InProgress, false),
        Some(Status::Failed)
    );
    // success completes the workflow only once nothing is pending
    assert_eq!(decide_workflow_update(Status::Succeeded, Status::InProgress, true), None);
    assert_eq!(
        decide_workflow_update(Status::Succeeded, Status::InProgress, false),
        Some(Status::Succeeded)
    );
    // an in-progress report never writes the workflow
    assert_eq!(decide_workflow_update(Status::InProgress, Status::InProgress, false), None);
}

#[test]
fn put_workflow_upserts_by_id() {
    let mut store = Store::new();
    let wid = submit_ok(&mut store, &[]);
    assert_eq!(store.workflows.len(), 1);
    store.put_workflow(Workflow { id: wid.clone(), status: Status::Failed });
    assert_eq!(store.workflows.len(), 1);
    assert_eq!(workflow_status(&store, &wid), Status::Failed);
}

#[test]
fn build_tasks_derives_the_batch() {
    let wid = "some-workflow".to_string();
    let batch = build_tasks(&wid, vec![reg("a"), reg("b"), reg("c")])
        .expect("fresh ids should not collide");
    assert_eq!(batch.len(), 3);
    for t in &batch {
        assert_eq!(t.workflow_id, wid);
        assert_eq!(t.status, Status::InProgress);
        assert_eq!(t.id.len(), 36);
    }
    assert_ne!(batch[0].id, batch[1].id);
    assert_ne!(batch[0].id, batch[2].id);
    assert_ne!(batch[1].id, batch[2].id);
    assert_eq!(batch[2].regulator.name, "c");
}

#[test]
fn submitted_ids_are_distinct_across_workflows() {
    let mut store = Store::new();
    let w1 = submit_ok(&mut store, &["a"]);
    let w2 = submit_ok(&mut store, &["a"]);
    assert_ne!(w1, w2);
    assert_eq!(store.workflows.len(), 2);
    assert_eq!(store.tasks.len(), 2);
}

#[test]
fn prepare_submission_derives_workflow_and_batch() {
    let (workflow, tasks) =
        prepare_submission(vec![reg("a"), reg("b")]).expect("fresh ids should not collide");
    assert_eq!(workflow.status, Status::InProgress);
    assert_eq!(workflow.id.len(), 36);
    assert_eq!(tasks.len(), 2);
    for t in &tasks {
        assert_eq!(t.workflow_id, workflow.id);
        assert_eq!(t.status, Status::InProgress);
    }
    assert_eq!(tasks[0].regulator.name, "a");
    assert_eq!(tasks[1].regulator.name, "b");
    assert_ne!(tasks[0].id, tasks[1].id);
}

#[test]
fn any_task_pending_spots_the_one_pending_task() {
    let (_, mut tasks) =
        prepare_submission(vec![reg("a"), reg("b")]).expect("fresh ids should not collide");
    assert!(any_task_pending(&tasks));
    tasks[0].status = Status::Succeeded;
    tasks[1].status = Status::Failed;
    assert!(!any_task_pending(&tasks));
    tasks[1].status = Status::InProgress;
    assert!(any_task_pending(&tasks));
    assert!(!any_task_pending(&Vec::new()));
}
