//! The orchestrator: creates workflows and their tasks on submission, and
//! processes task status reports, cascading task outcomes into the overall
//! workflow status.
//!
//! The status rules follow one uniform policy: a terminal workflow status is
//! final. A `Failed` task report fails a workflow that is still in progress;
//! a `Succeeded` report completes the workflow exactly when no task of the
//! workflow remains pending; a report against an already terminal workflow
//! is accepted as a no-op.

use vstd::prelude::*;
use vstd::string::*;
use crate::errors::{RegulatorsError, UpdateOutcome};
use crate::ids::fresh_uuid;
use crate::model::{
    Regulator, Status, Task, Workflow, is_pending, is_terminal, parse_status, spec_parse_status,
    status_is_terminal,
};
use crate::store::{
    Store, has_pending_task, has_task, has_workflow, lemma_task_index_is,
    lemma_workflow_index_is, store_inv, task_index, workflow_at, workflow_index,
};

verus! {

/// The decision at the heart of a task status update: given the validated
/// new task status, the parent workflow's current status, and whether any
/// task of the workflow is still pending once the task itself is written,
/// which status, if any, is written to the workflow.
pub open spec fn spec_decide_workflow_update(
    new_status: Status,
    workflow_status: Status,
    any_pending: bool,
) -> Option<Status> {
    if is_terminal(workflow_status) {
        Option::None
    } else if new_status == Status::Failed {
        Option::Some(Status::Failed)
    } else if new_status == Status::Succeeded && !any_pending {
        Option::Some(Status::Succeeded)
    } else {
        Option::None
    }
}

/// Executable form of `spec_decide_workflow_update`, for callers that run
/// the same state machine against an external store.
pub fn decide_workflow_update(new_status: Status, workflow_status: Status, any_pending: bool) -> (r:
    Option<Status>)
    ensures
        r == spec_decide_workflow_update(new_status, workflow_status, any_pending),
{
    if status_is_terminal(workflow_status) {
        Option::None
    } else if new_status == Status::Failed {
        Option::Some(Status::Failed)
    } else if new_status == Status::Succeeded && !any_pending {
        Option::Some(Status::Succeeded)
    } else {
        Option::None
    }
}

/// The full effect of a task status update on the two tables, together with
/// the outcome reported to the caller. The task record is written first;
/// only then is the workflow consulted, so a missing workflow still leaves
/// the task status written.
pub open spec fn spec_update_task_status(
    ws: Seq<Workflow>,
    ts: Seq<Task>,
    wid: Seq<char>,
    tid: Seq<char>,
    status_text: Seq<char>,
) -> (Seq<Workflow>, Seq<Task>, UpdateOutcome) {
    match spec_parse_status(status_text) {
        Option::None => (ws, ts, UpdateOutcome::BadRequest),
        Option::Some(st) => {
            if !has_task(ts, wid, tid) {
                (ws, ts, UpdateOutcome::NotFound)
            } else {
                let ti = task_index(ts, wid, tid);
                let t0 = ts[ti];
                let ts1 = ts.update(
                    ti,
                    Task {
                        id: t0.id,
                        workflow_id: t0.workflow_id,
                        status: st,
                        regulator: t0.regulator,
                    },
                );
                if st == Status::InProgress {
                    (ws, ts1, UpdateOutcome::Accepted)
                } else if !has_workflow(ws, wid) {
                    (ws, ts1, UpdateOutcome::NotFound)
                } else {
                    let wi = workflow_index(ws, wid);
                    let w0 = ws[wi];
                    match spec_decide_workflow_update(st, w0.status, has_pending_task(ts1, wid)) {
                        Option::Some(nst) => (
                            ws.update(wi, Workflow { id: w0.id, status: nst }),
                            ts1,
                            UpdateOutcome::Accepted,
                        ),
                        Option::None => (ws, ts1, UpdateOutcome::Accepted),
                    }
                }
            }
        },
    }
}

/// Replacing a task by one with the same keys keeps the tables well-formed.
pub proof fn lemma_inv_preserved_by_task_update(ws: Seq<Workflow>, ts: Seq<Task>, i: int, t2: Task)
    requires
        store_inv(ws, ts),
        0 <= i < ts.len(),
        t2.workflow_id@ == ts[i].workflow_id@,
        t2.id@ == ts[i].id@,
    ensures
        store_inv(ws, ts.update(i, t2)),
{
    let ts2 = ts.update(i, t2);
    assert forall|p: int, q: int| 0 <= p < q < ts2.len() implies !(ts2[p].workflow_id@
        == ts2[q].workflow_id@ && ts2[p].id@ == ts2[q].id@) by {
        assert(ts2[p].workflow_id@ == ts[p].workflow_id@ && ts2[p].id@ == ts[p].id@);
        assert(ts2[q].workflow_id@ == ts[q].workflow_id@ && ts2[q].id@ == ts[q].id@);
    }
    assert forall|p: int| 0 <= p < ts2.len() implies has_workflow(ws, ts2[p].workflow_id@) by {
        assert(ts2[p].workflow_id@ == ts[p].workflow_id@);
    }
}

/// Replacing a workflow by one with the same id keeps the tables well-formed.
pub proof fn lemma_inv_preserved_by_workflow_update(
    ws: Seq<Workflow>,
    ts: Seq<Task>,
    i: int,
    w2: Workflow,
)
    requires
        store_inv(ws, ts),
        0 <= i < ws.len(),
        w2.id@ == ws[i].id@,
    ensures
        store_inv(ws.update(i, w2), ts),
{
    let ws2 = ws.update(i, w2);
    assert forall|p: int, q: int| 0 <= p < q < ws2.len() implies ws2[p].id@ != ws2[q].id@ by {
        assert(ws2[p].id@ == ws[p].id@);
        assert(ws2[q].id@ == ws[q].id@);
    }
    assert forall|p: int| 0 <= p < ts.len() implies has_workflow(ws2, ts[p].workflow_id@) by {
        let k = choose|k: int| 0 <= k < ws.len() && ws[k].id@ == ts[p].workflow_id@;
        assert(ws2[k].id@ == ts[p].workflow_id@);
    }
}

/// What a successful submission leaves behind: the one new workflow record,
/// in progress, plus exactly one new in-progress task per submitted
/// regulator, all sharing the returned workflow id, with pairwise distinct
/// task ids; nothing else is touched, and no prior task shares the id.
pub open spec fn submit_post(
    pre_ws: Seq<Workflow>,
    pre_ts: Seq<Task>,
    post_ws: Seq<Workflow>,
    post_ts: Seq<Task>,
    wid: Seq<char>,
    regs: Seq<Regulator>,
) -> bool {
    &&& !has_workflow(pre_ws, wid)
    &&& forall|i: int| 0 <= i < pre_ts.len() ==> pre_ts[i].workflow_id@ != wid
    &&& post_ws.len() == pre_ws.len() + 1
    &&& post_ws.take(pre_ws.len() as int) == pre_ws
    &&& post_ws.last().id@ == wid
    &&& post_ws.last().status == Status::InProgress
    &&& post_ts.len() == pre_ts.len() + regs.len()
    &&& post_ts.take(pre_ts.len() as int) == pre_ts
    &&& forall|j: int|
        pre_ts.len() <= j < post_ts.len() ==> (#[trigger] post_ts[j]).workflow_id@ == wid
            && post_ts[j].status == Status::InProgress && post_ts[j].regulator == regs[j
            - pre_ts.len()]
    &&& forall|j: int, k: int|
        pre_ts.len() <= j < k < post_ts.len() ==> (#[trigger] post_ts[j]).id@
            != (#[trigger] post_ts[k]).id@
}

/// Whether some already built task carries the id `id`.
fn contains_task_id(ts: &Vec<Task>, id: &String) -> (r: bool)
    ensures
        r == exists|i: int| 0 <= i < ts@.len() && ts@[i].id@ == id@,
{
    let mut i: usize = 0;
    while i < ts.len()
        invariant
            i <= ts@.len(),
            forall|k: int| 0 <= k < i ==> ts@[k].id@ != id@,
        decreases ts@.len() - i,
    {
        if ts[i].id == *id {
            return true;
        }
        i = i + 1;
    }
    false
}

/// Derives the batch of task records for one submission: one in-progress
/// task per regulator, each under a freshly drawn id, all owned by
/// `workflow_id`. Should two drawn ids coincide — the ids are random, so
/// this cannot be promised away — the batch is refused as unwritable and
/// reported as a store write failure.
#[verifier::loop_isolation(false)]
pub fn build_tasks(workflow_id: &String, regulators: Vec<Regulator>) -> (r: Result<
    Vec<Task>,
    RegulatorsError,
>)
    ensures
        r matches Err(e) ==> e is StoreWriteError,
        r matches Ok(v) ==> {
            &&& v@.len() == regulators@.len()
            &&& forall|j: int|
                0 <= j < v@.len() ==> (#[trigger] v@[j]).workflow_id@ == workflow_id@
                    && v@[j].status == Status::InProgress && v@[j].regulator == regulators@[j]
                    && v@[j].id@.len() == 36
            &&& forall|j: int, k: int|
                0 <= j < k < v@.len() ==> (#[trigger] v@[j]).id@ != (#[trigger] v@[k]).id@
        },
{
    let mut regs = regulators;
    let ghost regs0 = regs@;
    let mut out: Vec<Task> = Vec::new();
    while regs.len() > 0
        invariant
            out@.len() + regs@.len() == regs0.len(),
            regs@ == regs0.skip(out@.len() as int),
            forall|j: int|
                0 <= j < out@.len() ==> (#[trigger] out@[j]).workflow_id@ == workflow_id@
                    && out@[j].status == Status::InProgress && out@[j].regulator == regs0[j]
                    && out@[j].id@.len() == 36,
            forall|j: int, k: int|
                0 <= j < k < out@.len() ==> (#[trigger] out@[j]).id@ != (#[trigger] out@[k]).id@,
        decreases regs@.len(),
    {
        let ghost m = out@.len() as int;
        proof {
            assert(regs@[0] == regs0[m]);
        }
        let reg = regs.remove(0);
        let tid = fresh_uuid();
        if contains_task_id(&out, &tid) {
            return Result::Err(
                RegulatorsError::StoreWriteError(
                    String::from_str("two freshly drawn task ids coincided"),
                ),
            );
        }
        let t = Task {
            id: tid,
            workflow_id: workflow_id.clone(),
            status: Status::InProgress,
            regulator: reg,
        };
        out.push(t);
        proof {
            assert(regs@ =~= regs0.skip(out@.len() as int));
        }
    }
    proof {
        assert(out@.len() == regs0.len());
    }
    Result::Ok(out)
}

/// Derives the records of one submission without touching any store: a
/// fresh workflow, in progress, together with one in-progress task per
/// regulator, all owned by the workflow and under pairwise distinct ids.
/// Callers persist the workflow first, then every task, and only then
/// trigger the tasks.
pub fn prepare_submission(regulators: Vec<Regulator>) -> (r: Result<
    (Workflow, Vec<Task>),
    RegulatorsError,
>)
    ensures
        r matches Err(e) ==> e is StoreWriteError,
        r matches Ok(p) ==> {
            &&& p.0.status == Status::InProgress
            &&& p.0.id@.len() == 36
            &&& p.1@.len() == regulators@.len()
            &&& forall|j: int|
                0 <= j < p.1@.len() ==> (#[trigger] p.1@[j]).workflow_id@ == p.0.id@
                    && p.1@[j].status == Status::InProgress && p.1@[j].regulator
                    == regulators@[j] && p.1@[j].id@.len() == 36
            &&& forall|j: int, k: int|
                0 <= j < k < p.1@.len() ==> (#[trigger] p.1@[j]).id@ != (#[trigger] p.1@[k]).id@
        },
{
    let wid = fresh_uuid();
    let tasks = match build_tasks(&wid, regulators) {
        Result::Err(e) => {
            return Result::Err(e);
        },
        Result::Ok(v) => v,
    };
    Result::Ok((Workflow { id: wid, status: Status::InProgress }, tasks))
}

/// Whether any task in the handed list is still pending, for callers that
/// query a workflow's tasks from an external store.
pub fn any_task_pending(tasks: &Vec<Task>) -> (r: bool)
    ensures
        r == exists|i: int| 0 <= i < tasks@.len() && is_pending(tasks@[i]),
{
    let mut i: usize = 0;
    while i < tasks.len()
        invariant
            i <= tasks@.len(),
            forall|k: int| 0 <= k < i ==> !is_pending(tasks@[k]),
        decreases tasks@.len() - i,
    {
        if !status_is_terminal(tasks[i].status) {
            return true;
        }
        i = i + 1;
    }
    false
}

impl Store {
    /// Submission: draw a workflow id, persist the workflow record in
    /// progress, then persist one task per regulator; only with everything
    /// durably stored does the caller go on to trigger the tasks. A failure
    /// to obtain fresh ids leaves the store untouched.
    #[verifier::loop_isolation(false)]
    pub fn submit(&mut self, regulators: Vec<Regulator>) -> (r: Result<String, RegulatorsError>)
        requires
            old(self).wf(),
        ensures
            final(self).wf(),
            r matches Err(e) ==> e is StoreWriteError && final(self).workflows@ == old(
                self,
            ).workflows@ && final(self).tasks@ == old(self).tasks@,
            r matches Ok(wid) ==> wid@.len() == 36 && submit_post(
                old(self).workflows@,
                old(self).tasks@,
                final(self).workflows@,
                final(self).tasks@,
                wid@,
                regulators@,
            ),
    {
        let ghost ws0 = self.workflows@;
        let ghost ts0 = self.tasks@;
        let ghost regs_v = regulators@;
        let (w, mut new_tasks) = match prepare_submission(regulators) {
            Result::Err(e) => {
                return Result::Err(e);
            },
            Result::Ok(p) => p,
        };
        let wid = w.id.clone();
        match self.find_workflow_index(&wid) {
            Option::Some(_) => {
                return Result::Err(
                    RegulatorsError::StoreWriteError(
                        String::from_str("a freshly drawn workflow id was already in use"),
                    ),
                );
            },
            Option::None => {},
        }
        proof {
            assert forall|i: int| 0 <= i < ts0.len() implies ts0[i].workflow_id@ != wid@ by {
                assert(has_workflow(ws0, ts0[i].workflow_id@));
            }
        }
        let ghost gw = w;
        self.put_workflow(w);
        let ghost all_new = new_tasks@;
        let ghost mut m: int = 0;
        proof {
            assert(all_new.skip(0) =~= all_new);
            assert(ts0 + all_new.take(0) =~= ts0);
        }
        while new_tasks.len() > 0
            invariant
                m + new_tasks@.len() == all_new.len(),
                0 <= m,
                new_tasks@ == all_new.skip(m),
                self.workflows@ == ws0.push(gw),
                self.tasks@ == ts0 + all_new.take(m),
                self.wf(),
            decreases new_tasks@.len(),
        {
            proof {
                assert(new_tasks@[0] == all_new[m]);
            }
            let t = new_tasks.remove(0);
            proof {
                assert(has_workflow(self.workflows@, t.workflow_id@)) by {
                    assert(self.workflows@[ws0.len() as int].id@ == wid@);
                }
                assert(!has_task(self.tasks@, t.workflow_id@, t.id@)) by {
                    assert forall|i: int|
                        0 <= i < self.tasks@.len() implies !(self.tasks@[i].workflow_id@
                        == t.workflow_id@ && self.tasks@[i].id@ == t.id@) by {
                        if i < ts0.len() {
                            assert(self.tasks@[i] == ts0[i]);
                        } else {
                            assert(self.tasks@[i] == all_new[i - ts0.len()]);
                            assert(all_new[i - ts0.len()].id@ != all_new[m].id@);
                        }
                    }
                }
            }
            self.put_task(t);
            proof {
                m = m + 1;
                assert(new_tasks@ =~= all_new.skip(m));
                assert(self.tasks@ =~= ts0 + all_new.take(m));
            }
        }
        proof {
            assert(all_new.take(all_new.len() as int) =~= all_new);
            assert(self.tasks@.take(ts0.len() as int) =~= ts0);
            assert(self.workflows@.take(ws0.len() as int) =~= ws0);
            assert forall|j: int|
                ts0.len() <= j < self.tasks@.len() implies (#[trigger] self.tasks@[j]).workflow_id@
                == wid@ && self.tasks@[j].status == Status::InProgress && self.tasks@[j].regulator
                == regs_v[j - ts0.len()] by {
                assert(self.tasks@[j] == all_new[j - ts0.len()]);
            }
            assert forall|j: int, k: int|
                ts0.len() <= j < k < self.tasks@.len() implies (#[trigger] self.tasks@[j]).id@
                != (#[trigger] self.tasks@[k]).id@ by {
                assert(self.tasks@[j] == all_new[j - ts0.len()]);
                assert(self.tasks@[k] == all_new[k - ts0.len()]);
            }
        }
        Result::Ok(wid)
    }

    /// Task status update: validate the status, write it to the task record,
    /// then cascade into the workflow as `spec_update_task_status` lays down.
    pub fn update_task_status(
        &mut self,
        workflow_id: &String,
        task_id: &String,
        status_text: &String,
    ) -> (r: UpdateOutcome)
        requires
            old(self).wf(),
        ensures
            final(self).wf(),
            ({
                let (ws, ts, out) = spec_update_task_status(
                    old(self).workflows@,
                    old(self).tasks@,
                    workflow_id@,
                    task_id@,
                    status_text@,
                );
                final(self).workflows@ == ws && final(self).tasks@ == ts && r == out
            }),
    {
        let st = match parse_status(status_text) {
            Option::None => {
                return UpdateOutcome::BadRequest;
            },
            Option::Some(s) => s,
        };
        let ti = match self.find_task_index(workflow_id, task_id) {
            Option::None => {
                return UpdateOutcome::NotFound;
            },
            Option::Some(i) => i,
        };
        let ghost ws0 = self.workflows@;
        let ghost ts0 = self.tasks@;
        proof {
            lemma_task_index_is(ts0, workflow_id@, task_id@, ti as int);
        }
        self.tasks[ti].status = st;
        proof {
            let t0 = ts0[ti as int];
            assert(self.tasks@ == ts0.update(
                ti as int,
                Task { id: t0.id, workflow_id: t0.workflow_id, status: st, regulator: t0.regulator },
            ));
            lemma_inv_preserved_by_task_update(ws0, ts0, ti as int, self.tasks@[ti as int]);
        }
        if st == Status::InProgress {
            return UpdateOutcome::Accepted;
        }
        let wi = match self.find_workflow_index(workflow_id) {
            Option::None => {
                return UpdateOutcome::NotFound;
            },
            Option::Some(i) => i,
        };
        proof {
            lemma_workflow_index_is(ws0, workflow_id@, wi as int);
        }
        let wst = self.workflows[wi].status;
        if status_is_terminal(wst) {
            return UpdateOutcome::Accepted;
        }
        if st == Status::Failed {
            self.workflows[wi].status = Status::Failed;
            proof {
                let w0 = ws0[wi as int];
                assert(self.workflows@ == ws0.update(
                    wi as int,
                    Workflow { id: w0.id, status: Status::Failed },
                ));
                lemma_inv_preserved_by_workflow_update(
                    ws0,
                    self.tasks@,
                    wi as int,
                    self.workflows@[wi as int],
                );
            }
            return UpdateOutcome::Accepted;
        }
        let pending = self.has_pending_tasks(workflow_id);
        if !pending {
            self.workflows[wi].status = Status::Succeeded;
            proof {
                let w0 = ws0[wi as int];
                assert(self.workflows@ == ws0.update(
                    wi as int,
                    Workflow { id: w0.id, status: Status::Succeeded },
                ));
                lemma_inv_preserved_by_workflow_update(
                    ws0,
                    self.tasks@,
                    wi as int,
                    self.workflows@[wi as int],
                );
            }
        }
        UpdateOutcome::Accepted
    }

    /// The workflow as a caller sees it: its status together with its tasks.
    pub fn workflow_overview(&self, id: &String) -> (r: Option<(Status, Vec<&Task>)>)
        requires
            self.wf(),
        ensures
            match r {
                Option::Some(p) => has_workflow(self.workflows@, id@) && p.0 == workflow_at(
                    self.workflows@,
                    id@,
                ).status && p.1@.map_values(|t: &Task| *t) == crate::store::tasks_of(
                    self.tasks@,
                    id@,
                ),
                Option::None => !has_workflow(self.workflows@, id@),
            },
    {
        match self.get_workflow(id) {
            Option::Some(w) => {
                let st = w.status;
                let tasks = self.list_tasks(id);
                Option::Some((st, tasks))
            },
            Option::None => Option::None,
        }
    }
}

} // verus!
