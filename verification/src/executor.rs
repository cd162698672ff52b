//! The staged, bounded-concurrency submission schedule.
//!
//! Submission runs in fixed stages. Within a stage at most `limit` calls
//! are in flight at once and completions may arrive in any order; a later
//! stage starts no call until every call of the earlier stages has reached
//! a terminal outcome. The stage barrier exists because sells free the
//! buying power the later buy stages assume: the caller performs the actual
//! calls and reports each completion back, so every decision — start the
//! next call, wait for a completion, or finish — is taken here.

use vstd::prelude::*;

verus! {

/// What the driving loop should do next.
#[derive(Clone, Copy, Debug, PartialEq, Eq, Structural)]
pub enum ExecutorStep {
    /// Begin the call at `index` within `stage`.
    Start { stage: usize, index: usize },
    /// The pool is full, or the stage barrier holds: await one completion.
    Wait,
    /// Every stage has fully resolved.
    Done,
}

/// Tracks one run of the submission pipeline: how many calls of each stage
/// have been started and completed, the recorded outcome of every
/// completion, the stage currently being worked, and the concurrency bound.
pub struct StagedExecutor {
    /// How many calls each stage holds; fixed at construction.
    pub stage_sizes: Vec<usize>,
    /// How many calls of each stage have been started.
    pub started: Vec<usize>,
    /// How many calls of each stage have reached a terminal outcome.
    pub completed: Vec<usize>,
    /// The outcome of each completion, per stage, in completion order.
    pub outcomes: Vec<Vec<bool>>,
    /// The stage currently being worked; equals the stage count when done.
    pub current: usize,
    /// The concurrency bound: the most calls ever in flight at once.
    pub limit: usize,
}

impl StagedExecutor {
    /// The number of stages.
    pub open spec fn num_stages(self) -> int {
        self.stage_sizes@.len() as int
    }

    /// The calls started but not yet completed. Only the current stage can
    /// have any.
    pub open spec fn in_flight(self) -> int {
        if self.current < self.num_stages() {
            self.started@[self.current as int] - self.completed@[self.current as int]
        } else {
            0
        }
    }

    /// Whether every stage has fully resolved.
    pub open spec fn is_finished(self) -> bool {
        self.current == self.num_stages()
    }

    /// The invariant every reachable executor state satisfies: counters
    /// stay within their stage, every stage before the current one has
    /// fully resolved, no stage after it has started, the current stage is
    /// not yet fully resolved, outcomes track completions one for one, and
    /// never more than `limit` calls are in flight.
    pub open spec fn wf(self) -> bool {
        &&& self.started@.len() == self.num_stages()
        &&& self.completed@.len() == self.num_stages()
        &&& self.outcomes@.len() == self.num_stages()
        &&& self.limit >= 1
        &&& self.current <= self.num_stages()
        &&& forall|j: int|
            0 <= j < self.num_stages() ==> #[trigger] self.completed@[j] <= self.started@[j]
                <= self.stage_sizes@[j]
        &&& forall|j: int|
            0 <= j < self.num_stages() ==> (#[trigger] self.outcomes@[j])@.len()
                == self.completed@[j]
        &&& forall|j: int|
            0 <= j < self.current ==> #[trigger] self.completed@[j] == self.stage_sizes@[j]
        &&& forall|j: int|
            self.current < j < self.num_stages() ==> #[trigger] self.started@[j] == 0
        &&& (self.current < self.num_stages() ==> self.completed@[self.current as int]
            < self.stage_sizes@[self.current as int])
        &&& self.in_flight() <= self.limit
    }

    /// Sets up a run over the given stage sizes with the given concurrency
    /// bound. Nothing is started or completed yet; stages that hold no call
    /// are already skipped.
    pub fn new(stage_sizes: Vec<usize>, limit: usize) -> (r: StagedExecutor)
        requires
            limit >= 1,
        ensures
            r.wf(),
            r.stage_sizes@ == stage_sizes@,
            r.limit == limit,
            forall|j: int| 0 <= j < r.num_stages() ==> #[trigger] r.started@[j] == 0,
            forall|j: int| 0 <= j < r.num_stages() ==> #[trigger] r.completed@[j] == 0,
            forall|j: int| 0 <= j < r.num_stages() ==> (#[trigger] r.outcomes@[j])@.len() == 0,
            forall|j: int| 0 <= j < r.current ==> #[trigger] r.stage_sizes@[j] == 0,
            r.current == r.num_stages() || r.stage_sizes@[r.current as int] > 0,
    {
        let n = stage_sizes.len();
        let mut started: Vec<usize> = Vec::new();
        let mut completed: Vec<usize> = Vec::new();
        let mut outcomes: Vec<Vec<bool>> = Vec::new();
        let mut k: usize = 0;
        while k < n
            invariant
                0 <= k <= n,
                started@.len() == k,
                completed@.len() == k,
                outcomes@.len() == k,
                forall|j: int| 0 <= j < k ==> #[trigger] started@[j] == 0,
                forall|j: int| 0 <= j < k ==> #[trigger] completed@[j] == 0,
                forall|j: int| 0 <= j < k ==> (#[trigger] outcomes@[j])@.len() == 0,
            decreases n - k,
        {
            started.push(0);
            completed.push(0);
            outcomes.push(Vec::new());
            k += 1;
        }
        let mut current: usize = 0;
        while current < n && stage_sizes[current] == 0
            invariant
                0 <= current <= n,
                n == stage_sizes@.len(),
                forall|j: int| 0 <= j < current ==> #[trigger] stage_sizes@[j] == 0,
            decreases n - current,
        {
            current += 1;
        }
        StagedExecutor { stage_sizes, started, completed, outcomes, current, limit }
    }

    /// Decides the next move: start the next call of the current stage when
    /// the stage still has unstarted calls and fewer than `limit` are in
    /// flight; wait otherwise; done when all stages have resolved. A
    /// returned `Start` always belongs to the current stage, whose every
    /// predecessor has fully resolved — the stage barrier.
    pub fn poll(&mut self) -> (step: ExecutorStep)
        requires
            old(self).wf(),
        ensures
            final (self).wf(),
            final (self).stage_sizes@ == old(self).stage_sizes@,
            final (self).limit == old(self).limit,
            final (self).current == old(self).current,
            final (self).completed@ == old(self).completed@,
            final (self).outcomes@ == old(self).outcomes@,
            old(self).is_finished() ==> step == ExecutorStep::Done && final (self).started@ == old(
                self,
            ).started@,
            !old(self).is_finished() && old(self).started@[old(self).current as int] < old(
                self,
            ).stage_sizes@[old(self).current as int] && old(self).in_flight() < old(self).limit
                ==> step == (ExecutorStep::Start {
                stage: old(self).current,
                index: old(self).started@[old(self).current as int],
            }) && final (self).started@ == old(self).started@.update(
                old(self).current as int,
                (old(self).started@[old(self).current as int] + 1) as usize,
            ) && final (self).in_flight() == old(self).in_flight() + 1,
            !old(self).is_finished() && !(old(self).started@[old(self).current as int] < old(
                self,
            ).stage_sizes@[old(self).current as int] && old(self).in_flight() < old(self).limit)
                ==> step == ExecutorStep::Wait && final (self).started@ == old(self).started@,
            step matches ExecutorStep::Start { stage, index } ==> stage == old(self).current
                && old(self).in_flight() < old(self).limit && forall|j: int|
                0 <= j < stage ==> #[trigger] final (self).completed@[j]
                    == final (self).stage_sizes@[j],
    {
        if self.current == self.stage_sizes.len() {
            return ExecutorStep::Done;
        }
        let cur = self.current;
        let started_here = self.started[cur];
        let completed_here = self.completed[cur];
        if started_here < self.stage_sizes[cur] && started_here - completed_here < self.limit {
            self.started.set(cur, started_here + 1);
            return ExecutorStep::Start { stage: cur, index: started_here };
        }
        ExecutorStep::Wait
    }

    /// Records one terminal outcome (success or failure) of a call of the
    /// current stage. A failure never aborts the stage or the run: it is
    /// recorded and the schedule goes on. When this completion resolves the
    /// whole stage, the run advances past it — and past any empty stages —
    /// so the barrier opens for the next stage only here.
    pub fn on_complete(&mut self, success: bool)
        requires
            old(self).wf(),
            old(self).in_flight() > 0,
        ensures
            final (self).wf(),
            final (self).stage_sizes@ == old(self).stage_sizes@,
            final (self).limit == old(self).limit,
            final (self).started@ == old(self).started@,
            final (self).completed@ == old(self).completed@.update(
                old(self).current as int,
                (old(self).completed@[old(self).current as int] + 1) as usize,
            ),
            final (self).outcomes@[old(self).current as int]@ == old(self).outcomes@[old(
                self,
            ).current as int]@.push(success),
            forall|j: int|
                0 <= j < old(self).num_stages() && j != old(self).current
                    ==> #[trigger] final (self).outcomes@[j] == old(self).outcomes@[j],
            old(self).current <= final (self).current,
            forall|j: int|
                old(self).current <= j < final (self).current
                    ==> #[trigger] final (self).completed@[j] == final (self).stage_sizes@[j],
            final (self).is_finished() || final (self).completed@[final (self).current as int]
                < final (self).stage_sizes@[final (self).current as int],
    {
        let cur = self.current;
        let completed_here = self.completed[cur];
        self.completed.set(cur, completed_here + 1);
        let mut row = self.outcomes.remove(cur);
        row.push(success);
        self.outcomes.insert(cur, row);
        let n = self.stage_sizes.len();
        while self.current < n && self.completed[self.current] == self.stage_sizes[self.current]
            invariant
                old(self).current <= self.current <= n,
                n == self.stage_sizes@.len(),
                self.stage_sizes@ == old(self).stage_sizes@,
                self.started@ == old(self).started@,
                self.limit == old(self).limit,
                self.completed@ == old(self).completed@.update(
                    old(self).current as int,
                    (old(self).completed@[old(self).current as int] + 1) as usize,
                ),
                self.outcomes@.len() == n,
                self.outcomes@[old(self).current as int]@ == old(self).outcomes@[old(
                    self,
                ).current as int]@.push(success),
                forall|j: int|
                    0 <= j < n && j != old(self).current ==> #[trigger] self.outcomes@[j] == old(
                        self,
                    ).outcomes@[j],
                self.started@.len() == n,
                self.completed@.len() == n,
                forall|j: int|
                    0 <= j < n ==> #[trigger] self.completed@[j] <= self.started@[j]
                        <= self.stage_sizes@[j],
                forall|j: int|
                    0 <= j < n ==> (#[trigger] self.outcomes@[j])@.len() == self.completed@[j],
                forall|j: int| 0 <= j < self.current ==> #[trigger] self.completed@[j]
                    == self.stage_sizes@[j],
                forall|j: int| self.current < j < n ==> #[trigger] self.started@[j] == 0,
                self.current < n ==> self.started@[self.current as int]
                    - self.completed@[self.current as int] <= self.limit,
            decreases n - self.current,
        {
            self.current = self.current + 1;
        }
    }

    /// Whether the whole run has resolved.
    pub fn finished(&self) -> (r: bool)
        ensures
            r == self.is_finished(),
    {
        self.current == self.stage_sizes.len()
    }

    /// The recorded outcomes of one stage, in completion order.
    pub fn stage_outcomes(&self, stage: usize) -> (r: &Vec<bool>)
        requires
            stage < self.num_stages(),
            self.wf(),
        ensures
            r@ == self.outcomes@[stage as int]@,
    {
        &self.outcomes[stage]
    }
}

/// In a well-formed state, never more than `limit` calls are in flight.
pub proof fn lemma_bounded_in_flight(e: StagedExecutor)
    requires
        e.wf(),
    ensures
        e.in_flight() <= e.limit,
{
}

/// The stage barrier: once any call of a stage has started, every call of
/// every earlier stage has already reached a terminal outcome.
pub proof fn lemma_stage_barrier(e: StagedExecutor, s: int)
    requires
        e.wf(),
        0 <= s < e.num_stages(),
        e.started@[s] > 0,
    ensures
        forall|j: int| 0 <= j < s ==> #[trigger] e.completed@[j] == e.stage_sizes@[j],
{
    assert(s <= e.current) by {
        if s > e.current {
            assert(e.started@[s] == 0);
        }
    }
}

} // verus!
