//! The orchestrator's cascade laws, stated over the spec-level transition
//! `spec_update_task_status` that `Store::update_task_status` is proved to
//! implement.

use vstd::prelude::*;
use crate::errors::UpdateOutcome;
use crate::model::{Status, Task, Workflow, is_terminal, spec_parse_status};
use crate::orchestrator::{
    lemma_inv_preserved_by_task_update, lemma_inv_preserved_by_workflow_update,
    spec_update_task_status,
};
use crate::store::{
    has_pending_task, has_task, has_workflow, lemma_task_index_is, lemma_workflow_index_is,
    store_inv, task_at, task_index, workflow_at, workflow_index,
};

verus! {

/// The three status texts parse to their statuses.
pub proof fn lemma_status_literals()
    ensures
        spec_parse_status("InProgress"@) == Option::Some(Status::InProgress),
        spec_parse_status("Failed"@) == Option::Some(Status::Failed),
        spec_parse_status("Succeeded"@) == Option::Some(Status::Succeeded),
{
    reveal_strlit("InProgress");
    reveal_strlit("Failed");
    reveal_strlit("Succeeded");
    assert("InProgress"@.len() == 10);
    assert("Failed"@.len() == 6);
    assert("Succeeded"@.len() == 9);
}

/// Reporting `Succeeded` for a task of a workflow that has already succeeded
/// is an accepted no-op: the workflow table is left untouched.
pub proof fn lemma_succeeded_update_idempotent(
    ws: Seq<Workflow>,
    ts: Seq<Task>,
    wid: Seq<char>,
    tid: Seq<char>,
)
    requires
        store_inv(ws, ts),
        has_task(ts, wid, tid),
        has_workflow(ws, wid),
        workflow_at(ws, wid).status == Status::Succeeded,
    ensures
        ({
            let (ws2, ts2, out) = spec_update_task_status(ws, ts, wid, tid, "Succeeded"@);
            out == UpdateOutcome::Accepted && ws2 == ws
        }),
{
    lemma_status_literals();
}

/// A single `Failed` task report fails a workflow that is still in
/// progress, whatever the states of its other tasks.
pub proof fn lemma_failed_propagates(ws: Seq<Workflow>, ts: Seq<Task>, wid: Seq<char>, tid: Seq<
    char,
>)
    requires
        store_inv(ws, ts),
        has_task(ts, wid, tid),
        has_workflow(ws, wid),
        !is_terminal(workflow_at(ws, wid).status),
    ensures
        ({
            let (ws2, ts2, out) = spec_update_task_status(ws, ts, wid, tid, "Failed"@);
            &&& out == UpdateOutcome::Accepted
            &&& has_workflow(ws2, wid)
            &&& workflow_at(ws2, wid).status == Status::Failed
        }),
{
    lemma_status_literals();
    let ti = task_index(ts, wid, tid);
    assert(0 <= ti < ts.len() && ts[ti].workflow_id@ == wid && ts[ti].id@ == tid);
    let t0 = ts[ti];
    let t2 = Task { id: t0.id, workflow_id: t0.workflow_id, status: Status::Failed, regulator: t0.regulator };
    let ts1 = ts.update(ti, t2);
    lemma_inv_preserved_by_task_update(ws, ts, ti, t2);
    let wi = workflow_index(ws, wid);
    assert(0 <= wi < ws.len() && ws[wi].id@ == wid);
    let w2 = Workflow { id: ws[wi].id, status: Status::Failed };
    lemma_inv_preserved_by_workflow_update(ws, ts1, wi, w2);
    lemma_workflow_index_is(ws.update(wi, w2), wid, wi);
}

/// An update whose status is valid but whose task is unknown reports
/// not-found and writes nothing.
pub proof fn lemma_not_found_no_writes(
    ws: Seq<Workflow>,
    ts: Seq<Task>,
    wid: Seq<char>,
    tid: Seq<char>,
    status_text: Seq<char>,
)
    requires
        spec_parse_status(status_text) is Some,
        !has_task(ts, wid, tid),
    ensures
        spec_update_task_status(ws, ts, wid, tid, status_text) == (ws, ts, UpdateOutcome::NotFound),
{
}

/// An update whose status lies outside the enumerated set reports
/// bad-request and writes nothing.
pub proof fn lemma_bad_request_no_writes(
    ws: Seq<Workflow>,
    ts: Seq<Task>,
    wid: Seq<char>,
    tid: Seq<char>,
    status_text: Seq<char>,
)
    requires
        spec_parse_status(status_text) is None,
    ensures
        spec_update_task_status(ws, ts, wid, tid, status_text) == (
            ws,
            ts,
            UpdateOutcome::BadRequest,
        ),
{
}

/// The cascade law for `Succeeded` reports, as one inductive step: as long
/// as the workflow has not failed and a succeeded workflow has no pending
/// task, a `Succeeded` report is accepted, keeps those facts, and leaves the
/// workflow `Succeeded` exactly when no task of it remains pending — never
/// before. `lemma_succeeded_cascade_run` chains it along a whole run of
/// reports.
pub proof fn lemma_succeeded_cascade_step(
    ws: Seq<Workflow>,
    ts: Seq<Task>,
    wid: Seq<char>,
    tid: Seq<char>,
)
    requires
        store_inv(ws, ts),
        has_task(ts, wid, tid),
        has_workflow(ws, wid),
        workflow_at(ws, wid).status != Status::Failed,
        workflow_at(ws, wid).status == Status::Succeeded ==> !has_pending_task(ts, wid),
    ensures
        ({
            let (ws2, ts2, out) = spec_update_task_status(ws, ts, wid, tid, "Succeeded"@);
            &&& out == UpdateOutcome::Accepted
            &&& store_inv(ws2, ts2)
            &&& has_task(ts2, wid, tid)
            &&& has_workflow(ws2, wid)
            &&& workflow_at(ws2, wid).status != Status::Failed
            &&& (workflow_at(ws2, wid).status == Status::Succeeded <==> !has_pending_task(
                ts2,
                wid,
            ))
            &&& task_at(ts2, wid, tid).status == Status::Succeeded
            &&& ts2.len() == ts.len()
            &&& forall|i: int|
                0 <= i < ts.len() ==> (#[trigger] ts2[i]).id@ == ts[i].id@ && ts2[i].workflow_id@
                    == ts[i].workflow_id@ && (ts2[i].status == ts[i].status || ts2[i].status
                    == Status::Succeeded)
        }),
{
    lemma_status_literals();
    let ti = task_index(ts, wid, tid);
    assert(0 <= ti < ts.len() && ts[ti].workflow_id@ == wid && ts[ti].id@ == tid);
    let t0 = ts[ti];
    let t2 = Task {
        id: t0.id,
        workflow_id: t0.workflow_id,
        status: Status::Succeeded,
        regulator: t0.regulator,
    };
    let ts1 = ts.update(ti, t2);
    lemma_inv_preserved_by_task_update(ws, ts, ti, t2);
    lemma_task_index_is(ts1, wid, tid, ti);
    let wi = workflow_index(ws, wid);
    assert(0 <= wi < ws.len() && ws[wi].id@ == wid);
    if ws[wi].status == Status::Succeeded {
        assert(!has_pending_task(ts1, wid)) by {
            assert forall|i: int|
                0 <= i < ts1.len() implies !(ts1[i].workflow_id@ == wid
                && crate::model::is_pending(ts1[i])) by {
                if i != ti {
                    assert(ts1[i] == ts[i]);
                    assert(!(ts[i].workflow_id@ == wid && crate::model::is_pending(ts[i])));
                }
            }
        }
    } else {
        assert(ws[wi].status == Status::InProgress);
        if has_pending_task(ts1, wid) {
            assert(workflow_at(ws, wid).status != Status::Succeeded);
        } else {
            let w2 = Workflow { id: ws[wi].id, status: Status::Succeeded };
            lemma_inv_preserved_by_workflow_update(ws, ts1, wi, w2);
            lemma_workflow_index_is(ws.update(wi, w2), wid, wi);
        }
    }
}

/// The tables after a whole run of `Succeeded` reports for workflow `wid`,
/// applied first to last.
pub open spec fn apply_succeeded_reports(
    ws: Seq<Workflow>,
    ts: Seq<Task>,
    wid: Seq<char>,
    tids: Seq<Seq<char>>,
) -> (Seq<Workflow>, Seq<Task>)
    decreases tids.len(),
{
    if tids.len() == 0 {
        (ws, ts)
    } else {
        let (ws1, ts1, out) = spec_update_task_status(ws, ts, wid, tids[0], "Succeeded"@);
        apply_succeeded_reports(ws1, ts1, wid, tids.drop_first())
    }
}

/// The cascade law along any run of `Succeeded` reports, in any order: each
/// reported task ends `Succeeded`, no task changes other than to
/// `Succeeded`, the workflow never turns `Failed`, and once at least one
/// report was processed the workflow reads `Succeeded` exactly when no task
/// of it remains pending — never before.
pub proof fn lemma_succeeded_cascade_run(
    ws: Seq<Workflow>,
    ts: Seq<Task>,
    wid: Seq<char>,
    tids: Seq<Seq<char>>,
)
    requires
        store_inv(ws, ts),
        has_workflow(ws, wid),
        workflow_at(ws, wid).status != Status::Failed,
        workflow_at(ws, wid).status == Status::Succeeded ==> !has_pending_task(ts, wid),
        forall|k: int| 0 <= k < tids.len() ==> has_task(ts, wid, #[trigger] tids[k]),
    ensures
        ({
            let (ws2, ts2) = apply_succeeded_reports(ws, ts, wid, tids);
            &&& store_inv(ws2, ts2)
            &&& has_workflow(ws2, wid)
            &&& workflow_at(ws2, wid).status != Status::Failed
            &&& (workflow_at(ws2, wid).status == Status::Succeeded ==> !has_pending_task(
                ts2,
                wid,
            ))
            &&& tids.len() > 0 ==> (workflow_at(ws2, wid).status == Status::Succeeded
                <==> !has_pending_task(ts2, wid))
            &&& forall|k: int|
                0 <= k < tids.len() ==> has_task(ts2, wid, #[trigger] tids[k]) && task_at(
                    ts2,
                    wid,
                    tids[k],
                ).status == Status::Succeeded
            &&& ts2.len() == ts.len()
            &&& forall|i: int|
                0 <= i < ts.len() ==> (#[trigger] ts2[i]).id@ == ts[i].id@ && ts2[i].workflow_id@
                    == ts[i].workflow_id@ && (ts2[i].status == ts[i].status || ts2[i].status
                    == Status::Succeeded)
        }),
    decreases tids.len(),
{
    if tids.len() == 0 {
    } else {
        let tid = tids[0];
        lemma_succeeded_cascade_step(ws, ts, wid, tid);
        let (ws1, ts1, out) = spec_update_task_status(ws, ts, wid, tid, "Succeeded"@);
        assert forall|k: int| 0 <= k < tids.drop_first().len() implies has_task(
            ts1,
            wid,
            #[trigger] tids.drop_first()[k],
        ) by {
            assert(tids.drop_first()[k] == tids[k + 1]);
            assert(has_task(ts, wid, tids[k + 1]));
            let i = choose|i: int|
                0 <= i < ts.len() && ts[i].workflow_id@ == wid && ts[i].id@ == tids[k + 1];
            assert(ts1[i].workflow_id@ == wid && ts1[i].id@ == tids[k + 1]);
        }
        lemma_succeeded_cascade_run(ws1, ts1, wid, tids.drop_first());
        let (ws2, ts2) = apply_succeeded_reports(ws1, ts1, wid, tids.drop_first());
        assert(apply_succeeded_reports(ws, ts, wid, tids) == (ws2, ts2));
        // the first reported task stays `Succeeded` through the rest of the run
        assert forall|k: int| 0 <= k < tids.len() implies has_task(ts2, wid, #[trigger] tids[k])
            && task_at(ts2, wid, tids[k]).status == Status::Succeeded by {
            if k == 0 {
                let ti = task_index(ts1, wid, tid);
                assert(0 <= ti < ts1.len() && ts1[ti].workflow_id@ == wid && ts1[ti].id@ == tid);
                assert(ts2[ti].workflow_id@ == wid && ts2[ti].id@ == tid);
                assert(ts2[ti].status == Status::Succeeded);
                lemma_task_index_is(ts2, wid, tid, ti);
            } else {
                assert(tids.drop_first()[k - 1] == tids[k]);
            }
        }
        // if the whole run was this one report, the step already decided it
        if tids.drop_first().len() == 0 {
            assert((ws2, ts2) == (ws1, ts1));
        }
    }
}

/// Cascade completion: a run of `Succeeded` reports that covers every task
/// of the workflow leaves the workflow `Succeeded`.
pub proof fn lemma_succeeded_cascade_completes(
    ws: Seq<Workflow>,
    ts: Seq<Task>,
    wid: Seq<char>,
    tids: Seq<Seq<char>>,
)
    requires
        store_inv(ws, ts),
        has_workflow(ws, wid),
        workflow_at(ws, wid).status != Status::Failed,
        workflow_at(ws, wid).status == Status::Succeeded ==> !has_pending_task(ts, wid),
        forall|k: int| 0 <= k < tids.len() ==> has_task(ts, wid, #[trigger] tids[k]),
        forall|i: int|
            0 <= i < ts.len() && (#[trigger] ts[i]).workflow_id@ == wid ==> exists|k: int|
                0 <= k < tids.len() && tids[k] == ts[i].id@,
        tids.len() > 0,
    ensures
        ({
            let (ws2, ts2) = apply_succeeded_reports(ws, ts, wid, tids);
            &&& has_workflow(ws2, wid)
            &&& workflow_at(ws2, wid).status == Status::Succeeded
        }),
{
    lemma_succeeded_cascade_run(ws, ts, wid, tids);
    let (ws2, ts2) = apply_succeeded_reports(ws, ts, wid, tids);
    assert forall|i: int| 0 <= i < ts2.len() implies !((#[trigger] ts2[i]).workflow_id@ == wid
        && crate::model::is_pending(ts2[i])) by {
        if ts2[i].workflow_id@ == wid {
            assert(ts[i].workflow_id@ == wid);
            let k = choose|k: int| 0 <= k < tids.len() && tids[k] == ts[i].id@;
            assert(task_at(ts2, wid, tids[k]).status == Status::Succeeded);
            lemma_task_index_is(ts2, wid, tids[k], i);
        }
    }
    assert(!has_pending_task(ts2, wid));
}

} // verus!
