//! The record store: two tables, `workflows` keyed by `id` and `tasks` keyed
//! by the composite (`workflow_id`, `id`), queryable by `workflow_id` alone.
//! `put` is an upsert; a `get` that finds nothing is a valid, non-error
//! outcome.

use vstd::prelude::*;
use crate::model::{Task, Workflow, is_pending, status_is_terminal};

verus! {

/// Some workflow in `ws` carries the id `id`.
pub open spec fn has_workflow(ws: Seq<Workflow>, id: Seq<char>) -> bool {
    exists|i: int| 0 <= i < ws.len() && ws[i].id@ == id
}

/// The index of the workflow with id `id` (meaningful under `has_workflow`
/// and key uniqueness).
pub open spec fn workflow_index(ws: Seq<Workflow>, id: Seq<char>) -> int {
    choose|i: int| 0 <= i < ws.len() && ws[i].id@ == id
}

/// The workflow with id `id`.
pub open spec fn workflow_at(ws: Seq<Workflow>, id: Seq<char>) -> Workflow {
    ws[workflow_index(ws, id)]
}

/// Some task in `ts` carries the composite key (`wid`, `tid`).
pub open spec fn has_task(ts: Seq<Task>, wid: Seq<char>, tid: Seq<char>) -> bool {
    exists|i: int| 0 <= i < ts.len() && ts[i].workflow_id@ == wid && ts[i].id@ == tid
}

/// The index of the task keyed (`wid`, `tid`).
pub open spec fn task_index(ts: Seq<Task>, wid: Seq<char>, tid: Seq<char>) -> int {
    choose|i: int| 0 <= i < ts.len() && ts[i].workflow_id@ == wid && ts[i].id@ == tid
}

/// The task keyed (`wid`, `tid`).
pub open spec fn task_at(ts: Seq<Task>, wid: Seq<char>, tid: Seq<char>) -> Task {
    ts[task_index(ts, wid, tid)]
}

/// Some task of workflow `wid` has not yet reached a terminal status.
pub open spec fn has_pending_task(ts: Seq<Task>, wid: Seq<char>) -> bool {
    exists|i: int| 0 <= i < ts.len() && ts[i].workflow_id@ == wid && is_pending(ts[i])
}

/// The tasks of workflow `wid`, in table order.
pub open spec fn tasks_of(ts: Seq<Task>, wid: Seq<char>) -> Seq<Task>
    decreases ts.len(),
{
    if ts.len() == 0 {
        Seq::empty()
    } else {
        let rest = tasks_of(ts.drop_last(), wid);
        if ts.last().workflow_id@ == wid {
            rest.push(ts.last())
        } else {
            rest
        }
    }
}

/// Well-formedness of the two tables: workflow ids are unique, composite
/// task keys are unique, and every task references a stored workflow.
pub open spec fn store_inv(ws: Seq<Workflow>, ts: Seq<Task>) -> bool {
    &&& forall|i: int, j: int| 0 <= i < j < ws.len() ==> ws[i].id@ != ws[j].id@
    &&& forall|i: int, j: int|
        0 <= i < j < ts.len() ==> !(ts[i].workflow_id@ == ts[j].workflow_id@
            && ts[i].id@ == ts[j].id@)
    &&& forall|i: int| 0 <= i < ts.len() ==> has_workflow(ws, ts[i].workflow_id@)
}

/// Under key uniqueness, any index whose workflow carries `id` is the one
/// `workflow_index` denotes.
pub proof fn lemma_workflow_index_is(ws: Seq<Workflow>, id: Seq<char>, i: int)
    requires
        forall|p: int, q: int| 0 <= p < q < ws.len() ==> ws[p].id@ != ws[q].id@,
        0 <= i < ws.len(),
        ws[i].id@ == id,
    ensures
        has_workflow(ws, id),
        workflow_index(ws, id) == i,
        workflow_at(ws, id) == ws[i],
{
    assert(has_workflow(ws, id));
    let j = workflow_index(ws, id);
    if j < i {
        assert(ws[j].id@ != ws[i].id@);
    }
    if i < j {
        assert(ws[i].id@ != ws[j].id@);
    }
}

/// Under key uniqueness, any index whose task carries (`wid`, `tid`) is the
/// one `task_index` denotes.
pub proof fn lemma_task_index_is(ts: Seq<Task>, wid: Seq<char>, tid: Seq<char>, i: int)
    requires
        forall|p: int, q: int|
            0 <= p < q < ts.len() ==> !(ts[p].workflow_id@ == ts[q].workflow_id@
                && ts[p].id@ == ts[q].id@),
        0 <= i < ts.len(),
        ts[i].workflow_id@ == wid,
        ts[i].id@ == tid,
    ensures
        has_task(ts, wid, tid),
        task_index(ts, wid, tid) == i,
        task_at(ts, wid, tid) == ts[i],
{
    assert(has_task(ts, wid, tid));
    let j = task_index(ts, wid, tid);
    if j < i {
        assert(!(ts[j].workflow_id@ == ts[i].workflow_id@ && ts[j].id@ == ts[i].id@));
    }
    if i < j {
        assert(!(ts[i].workflow_id@ == ts[j].workflow_id@ && ts[i].id@ == ts[j].id@));
    }
}

/// The in-memory record store the orchestrator runs against: the `workflows`
/// table and the `tasks` table.
#[derive(Debug)]
pub struct Store {
    pub workflows: Vec<Workflow>,
    pub tasks: Vec<Task>,
}

impl Store {
    /// Both tables are well-formed.
    pub open spec fn wf(self) -> bool {
        store_inv(self.workflows@, self.tasks@)
    }

    /// An empty store.
    pub fn new() -> (s: Store)
        ensures
            s.wf(),
            s.workflows@.len() == 0,
            s.tasks@.len() == 0,
    {
        Store { workflows: Vec::new(), tasks: Vec::new() }
    }

    /// Position of the workflow with id `id` in the table, if any.
    pub(crate) fn find_workflow_index(&self, id: &String) -> (r: Option<usize>)
        ensures
            match r {
                Option::Some(i) => 0 <= i < self.workflows@.len()
                    && self.workflows@[i as int].id@ == id@,
                Option::None => !has_workflow(self.workflows@, id@),
            },
    {
        let mut i: usize = 0;
        while i < self.workflows.len()
            invariant
                i <= self.workflows@.len(),
                forall|k: int| 0 <= k < i ==> self.workflows@[k].id@ != id@,
            decreases self.workflows@.len() - i,
        {
            if self.workflows[i].id == *id {
                return Option::Some(i);
            }
            i = i + 1;
        }
        Option::None
    }

    /// Position of the task keyed (`wid`, `tid`) in the table, if any.
    pub(crate) fn find_task_index(&self, wid: &String, tid: &String) -> (r: Option<usize>)
        ensures
            match r {
                Option::Some(i) => 0 <= i < self.tasks@.len()
                    && self.tasks@[i as int].workflow_id@ == wid@
                    && self.tasks@[i as int].id@ == tid@,
                Option::None => !has_task(self.tasks@, wid@, tid@),
            },
    {
        let mut i: usize = 0;
        while i < self.tasks.len()
            invariant
                i <= self.tasks@.len(),
                forall|k: int|
                    0 <= k < i ==> !(self.tasks@[k].workflow_id@ == wid@
                        && self.tasks@[k].id@ == tid@),
            decreases self.tasks@.len() - i,
        {
            if self.tasks[i].workflow_id == *wid && self.tasks[i].id == *tid {
                return Option::Some(i);
            }
            i = i + 1;
        }
        Option::None
    }

    /// Fetch a workflow by primary key; absence is not an error.
    pub fn get_workflow(&self, id: &String) -> (r: Option<&Workflow>)
        requires
            self.wf(),
        ensures
            match r {
                Option::Some(w) => has_workflow(self.workflows@, id@)
                    && *w == workflow_at(self.workflows@, id@),
                Option::None => !has_workflow(self.workflows@, id@),
            },
    {
        match self.find_workflow_index(id) {
            Option::Some(i) => {
                proof {
                    lemma_workflow_index_is(self.workflows@, id@, i as int);
                }
                Option::Some(&self.workflows[i])
            },
            Option::None => Option::None,
        }
    }

    /// Fetch a task by its composite key; absence is not an error.
    pub fn get_task(&self, wid: &String, tid: &String) -> (r: Option<&Task>)
        requires
            self.wf(),
        ensures
            match r {
                Option::Some(t) => has_task(self.tasks@, wid@, tid@)
                    && *t == task_at(self.tasks@, wid@, tid@),
                Option::None => !has_task(self.tasks@, wid@, tid@),
            },
    {
        match self.find_task_index(wid, tid) {
            Option::Some(i) => {
                proof {
                    lemma_task_index_is(self.tasks@, wid@, tid@, i as int);
                }
                Option::Some(&self.tasks[i])
            },
            Option::None => Option::None,
        }
    }

    /// Upsert a workflow record keyed by its `id`.
    pub fn put_workflow(&mut self, w: Workflow)
        requires
            old(self).wf(),
        ensures
            final(self).wf(),
            final(self).tasks@ == old(self).tasks@,
            has_workflow(final(self).workflows@, w.id@),
            if has_workflow(old(self).workflows@, w.id@) {
                final(self).workflows@ == old(self).workflows@.update(
                    workflow_index(old(self).workflows@, w.id@),
                    w,
                )
            } else {
                final(self).workflows@ == old(self).workflows@.push(w)
            },
    {
        let ghost pre = self.workflows@;
        match self.find_workflow_index(&w.id) {
            Option::Some(i) => {
                proof {
                    lemma_workflow_index_is(pre, w.id@, i as int);
                }
                self.workflows[i] = w;
                proof {
                    lemma_workflow_index_is(self.workflows@, w.id@, i as int);
                    assert forall|p: int| 0 <= p < self.tasks@.len() implies has_workflow(
                        self.workflows@,
                        self.tasks@[p].workflow_id@,
                    ) by {
                        let q = workflow_index(pre, self.tasks@[p].workflow_id@);
                        assert(self.workflows@[q].id@ == pre[q].id@);
                    }
                }
            },
            Option::None => {
                self.workflows.push(w);
                proof {
                    assert(self.workflows@[pre.len() as int].id@ == w.id@);
                    assert forall|p: int| 0 <= p < self.tasks@.len() implies has_workflow(
                        self.workflows@,
                        self.tasks@[p].workflow_id@,
                    ) by {
                        let q = workflow_index(pre, self.tasks@[p].workflow_id@);
                        assert(self.workflows@[q].id@ == pre[q].id@);
                    }
                }
            },
        }
    }

    /// Upsert a task record keyed by (`workflow_id`, `id`). The referenced
    /// workflow must already be stored.
    pub fn put_task(&mut self, t: Task)
        requires
            old(self).wf(),
            has_workflow(old(self).workflows@, t.workflow_id@),
        ensures
            final(self).wf(),
            final(self).workflows@ == old(self).workflows@,
            has_task(final(self).tasks@, t.workflow_id@, t.id@),
            if has_task(old(self).tasks@, t.workflow_id@, t.id@) {
                final(self).tasks@ == old(self).tasks@.update(
                    task_index(old(self).tasks@, t.workflow_id@, t.id@),
                    t,
                )
            } else {
                final(self).tasks@ == old(self).tasks@.push(t)
            },
    {
        let ghost pre = self.tasks@;
        match self.find_task_index(&t.workflow_id, &t.id) {
            Option::Some(i) => {
                proof {
                    lemma_task_index_is(pre, t.workflow_id@, t.id@, i as int);
                }
                self.tasks[i] = t;
                proof {
                    lemma_task_index_is(self.tasks@, t.workflow_id@, t.id@, i as int);
                }
            },
            Option::None => {
                self.tasks.push(t);
                proof {
                    assert(self.tasks@[pre.len() as int].workflow_id@ == t.workflow_id@);
                }
            },
        }
    }

    /// Query all tasks sharing the partition key `wid`, in table order; an
    /// empty result is not an error.
    pub fn list_tasks(&self, wid: &String) -> (r: Vec<&Task>)
        ensures
            r@.map_values(|t: &Task| *t) == tasks_of(self.tasks@, wid@),
    {
        let mut r: Vec<&Task> = Vec::new();
        let mut i: usize = 0;
        while i < self.tasks.len()
            invariant
                i <= self.tasks@.len(),
                r@.map_values(|t: &Task| *t) == tasks_of(self.tasks@.take(i as int), wid@),
            decreases self.tasks@.len() - i,
        {
            let ghost prefix = self.tasks@.take(i as int);
            let ghost prefix1 = self.tasks@.take(i as int + 1);
            proof {
                assert(prefix1.drop_last() =~= prefix);
                assert(prefix1.last() == self.tasks@[i as int]);
            }
            if self.tasks[i].workflow_id == *wid {
                let ghost before = r@;
                r.push(&self.tasks[i]);
                proof {
                    assert(r@.map_values(|t: &Task| *t) =~= before.map_values(|t: &Task| *t).push(
                        self.tasks@[i as int],
                    ));
                }
            }
            i = i + 1;
        }
        proof {
            assert(self.tasks@.take(self.tasks@.len() as int) =~= self.tasks@);
        }
        r
    }

    /// Whether any task of workflow `wid` is still pending.
    pub fn has_pending_tasks(&self, wid: &String) -> (r: bool)
        ensures
            r == has_pending_task(self.tasks@, wid@),
    {
        let mut i: usize = 0;
        while i < self.tasks.len()
            invariant
                i <= self.tasks@.len(),
                forall|k: int|
                    0 <= k < i ==> !(self.tasks@[k].workflow_id@ == wid@ && is_pending(
                        self.tasks@[k],
                    )),
            decreases self.tasks@.len() - i,
        {
            if self.tasks[i].workflow_id == *wid && !status_is_terminal(self.tasks[i].status) {
                return true;
            }
            i = i + 1;
        }
        false
    }
}

} // verus!
