//! Stage interpreter: a small dependency scheduler that orders steps by
//! stage and, within a stage, by action class (resource creation, then
//! sandbox creation, then command execution).
use vstd::prelude::*;

use crate::api::{Action, InvokeRequest};

verus! {

/// Intra-stage ordering key of an action: resource creation first, then
/// sandbox creation, then command execution.
pub open spec fn spec_order_in_phase(a: Action) -> u8 {
    match a {
        Action::CreateFile { .. } => 0,
        Action::CreatePipe { .. } => 0,
        Action::OpenFile { .. } => 0,
        Action::OpenNullFile { .. } => 0,
        Action::CreateVolume(..) => 0,
        Action::CreateSandbox(..) => 1,
        Action::ExecuteCommand(..) => 2,
    }
}

pub fn order_in_phase(a: &Action) -> (r: u8)
    ensures
        r == spec_order_in_phase(*a),
{
    match a {
        Action::CreateFile { .. } => 0,
        Action::CreatePipe { .. } => 0,
        Action::OpenFile { .. } => 0,
        Action::OpenNullFile { .. } => 0,
        Action::CreateVolume(..) => 0,
        Action::CreateSandbox(..) => 1,
        Action::ExecuteCommand(..) => 2,
    }
}

/// A strictly increasing sequence of indices.
pub open spec fn sorted_strict(s: Seq<usize>) -> bool {
    forall|a: int, b: int| 0 <= a < b < s.len() ==> s[a] < s[b]
}

/// Interprets the step graph of one request: `poll` is fed the indices of
/// finished steps and answers with every index that may start now.
#[derive(Debug)]
pub struct Interpreter {
    stages: Vec<u32>,
    classes: Vec<u8>,
    completed_steps: Vec<usize>,
}

impl Interpreter {
    /// Number of steps of the request.
    pub closed spec fn n(self) -> nat {
        self.stages@.len()
    }

    /// Stage of step `i`.
    pub closed spec fn stage_of(self, i: int) -> u32 {
        self.stages@[i]
    }

    /// Action class of step `i`.
    pub closed spec fn class_of(self, i: int) -> u8 {
        self.classes@[i]
    }

    /// The set of step indices reported as finished so far.
    pub closed spec fn completed(self) -> Set<int> {
        Set::new(
            |i: int|
                exists|k: int|
                    0 <= k < self.completed_steps@.len() && self.completed_steps@[k] as int == i,
        )
    }

    pub closed spec fn wf(self) -> bool {
        &&& self.classes@.len() == self.stages@.len()
        &&& sorted_strict(self.completed_steps@)
        &&& forall|k: int|
            0 <= k < self.completed_steps@.len() ==> (self.completed_steps@[k] as int)
                < self.stages@.len()
    }

    /// Step `i` may start: it is unfinished, and no other unfinished step
    /// stands in a lower stage, nor in the same stage with a lower class.
    pub open spec fn spec_can_run(self, i: int) -> bool {
        &&& 0 <= i < self.n()
        &&& !self.completed().contains(i)
        &&& forall|j: int|
            0 <= j < self.n() && !self.completed().contains(j) ==> (self.stage_of(j)
                > self.stage_of(i) || (self.stage_of(j) == self.stage_of(i) && self.class_of(j)
                >= self.class_of(i)))
    }

    pub fn new(req: &InvokeRequest) -> (r: Interpreter)
        ensures
            r.wf(),
            r.n() == req.steps@.len(),
            r.completed() =~= Set::<int>::empty(),
            forall|i: int| 0 <= i < r.n() ==> r.stage_of(i) == req.steps@[i].stage,
            forall|i: int|
                0 <= i < r.n() ==> r.class_of(i) == spec_order_in_phase(req.steps@[i].action),
    {
        let n: usize = req.steps.len();
        let mut stages: Vec<u32> = Vec::new();
        let mut classes: Vec<u8> = Vec::new();
        let mut i: usize = 0;
        while i < n
            invariant
                0 <= i <= n,
                n == req.steps@.len(),
                stages@.len() == i,
                classes@.len() == i,
                forall|k: int| 0 <= k < i ==> stages@[k] == req.steps@[k].stage,
                forall|k: int|
                    0 <= k < i ==> classes@[k] == spec_order_in_phase(req.steps@[k].action),
            decreases n - i,
        {
            stages.push(req.steps[i].stage);
            classes.push(order_in_phase(&req.steps[i].action));
            i = i + 1;
        }
        Interpreter { stages, classes, completed_steps: Vec::new() }
    }

    /// Whether every step has been reported as finished.
    pub fn is_completed(&self) -> (r: bool)
        requires
            self.wf(),
        ensures
            r == (self.completed() =~= Set::new(|i: int| 0 <= i < self.n())),
    {
        let r = self.completed_steps.len() == self.stages.len();
        proof {
            if r {
                lemma_sorted_bounded_full(self.completed_steps@, self.stages@.len() as int);
                assert forall|i: int| 0 <= i < self.n() implies self.completed().contains(
                    i,
                ) by {
                    assert(self.completed_steps@[i] as int == i);
                }
                assert(self.completed() =~= Set::new(|i: int| 0 <= i < self.n()));
            } else {
                if self.completed() =~= Set::new(|i: int| 0 <= i < self.n()) {
                    let s = self.completed_steps@;
                    let n = self.n() as int;
                    lemma_sorted_below_index(s);
                    if s.len() > 0 {
                        assert(s[s.len() - 1] as int >= s.len() - 1);
                        assert(s.len() <= n);
                    }
                    if n > 0 {
                        assert forall|j: int| 0 <= j <= n - 1 implies #[trigger] has_value(
                            s,
                            j,
                        ) by {
                            assert(self.completed().contains(j));
                        }
                        lemma_full_needs_length(s, n - 1);
                        assert(s.len() >= n);
                    }
                    assert(false);
                }
            }
        }
        r
    }

    /// Whether step `i` was reported as finished.
    fn is_done(&self, i: usize) -> (r: bool)
        ensures
            r == self.completed().contains(i as int),
    {
        let n: usize = self.completed_steps.len();
        let mut k: usize = 0;
        while k < n
            invariant
                0 <= k <= n,
                n == self.completed_steps@.len(),
                forall|t: int| 0 <= t < k ==> self.completed_steps@[t] != i,
            decreases n - k,
        {
            if self.completed_steps[k] == i {
                return true;
            }
            k = k + 1;
        }
        proof {
            if self.completed().contains(i as int) {
                let t = choose|t: int|
                    0 <= t < self.completed_steps@.len() && self.completed_steps@[t] as int
                        == i as int;
                assert(self.completed_steps@[t] == i);
            }
        }
        false
    }

    /// Whether step `i` may start now.
    fn can_run(&self, step_id: usize) -> (r: bool)
        requires
            self.wf(),
            step_id < self.n(),
        ensures
            r == self.spec_can_run(step_id as int),
    {
        if self.is_done(step_id) {
            return false;
        }
        let n: usize = self.stages.len();
        let mut j: usize = 0;
        while j < n
            invariant
                0 <= j <= n,
                n == self.n(),
                step_id < self.n(),
                self.wf(),
                !self.completed().contains(step_id as int),
                forall|t: int|
                    0 <= t < j && !self.completed().contains(t) ==> (self.stage_of(t)
                        > self.stage_of(step_id as int) || (self.stage_of(t) == self.stage_of(
                        step_id as int,
                    ) && self.class_of(t) >= self.class_of(step_id as int))),
            decreases n - j,
        {
            if !self.is_done(j) {
                if self.stages[j] < self.stages[step_id] {
                    proof {
                        assert(!self.completed().contains(j as int) && self.stage_of(j as int)
                            < self.stage_of(step_id as int));
                        assert(!self.spec_can_run(step_id as int));
                    }
                    return false;
                }
                if self.stages[j] == self.stages[step_id] && self.classes[j]
                    < self.classes[step_id] {
                    proof {
                        assert(!self.completed().contains(j as int) && self.stage_of(j as int)
                            == self.stage_of(step_id as int) && self.class_of(j as int)
                            < self.class_of(step_id as int));
                        assert(!self.spec_can_run(step_id as int));
                    }
                    return false;
                }
            }
            j = j + 1;
        }
        true
    }

    /// Records the given steps as finished (duplicates and re-reports are
    /// harmless) and answers with every step that may start now, in
    /// increasing index order.
    pub fn poll(&mut self, done: &Vec<usize>) -> (r: Vec<usize>)
        requires
            old(self).wf(),
            forall|k: int| 0 <= k < done@.len() ==> (done@[k] as int) < old(self).n(),
        ensures
            final(self).wf(),
            final(self).n() == old(self).n(),
            forall|i: int|
                0 <= i < old(self).n() ==> final(self).stage_of(i) == old(self).stage_of(i)
                    && final(self).class_of(i) == old(self).class_of(i),
            final(self).completed() =~= old(self).completed().union(
                Set::new(
                    |i: int|
                        exists|k: int| 0 <= k < done@.len() && done@[k] as int == i,
                ),
            ),
            sorted_strict(r@),
            forall|k: int| 0 <= k < r@.len() ==> final(self).spec_can_run(r@[k] as int),
            forall|i: int|
                0 <= i < final(self).n() && final(self).spec_can_run(i) ==> r@.contains(
                    i as usize,
                ),
    {
        let n_done: usize = done.len();
        let mut k: usize = 0;
        while k < n_done
            invariant
                0 <= k <= n_done,
                n_done == done@.len(),
                self.wf(),
                self.n() == old(self).n(),
                self.stages@ == old(self).stages@,
                self.classes@ == old(self).classes@,
                forall|t: int| 0 <= t < done@.len() ==> (done@[t] as int) < self.n(),
                self.completed() =~= old(self).completed().union(
                    Set::new(
                        |i: int|
                            exists|t: int| 0 <= t < k && done@[t] as int == i,
                    ),
                ),
            decreases n_done - k,
        {
            let ghost pre = *self;
            self.record_done(done[k]);
            proof {
                assert(self.completed() =~= pre.completed().insert(done@[k as int] as int));
                assert(self.completed() =~= old(self).completed().union(
                    Set::new(
                        |i: int|
                            exists|t: int| 0 <= t < k + 1 && done@[t] as int == i,
                    ),
                ));
            }
            k = k + 1;
        }
        let n: usize = self.stages.len();
        let mut resp: Vec<usize> = Vec::new();
        let mut step_id: usize = 0;
        while step_id < n
            invariant
                0 <= step_id <= n,
                n == self.n(),
                self.wf(),
                forall|t: int| 0 <= t < resp@.len() ==> (resp@[t] as int) < step_id,
                sorted_strict(resp@),
                forall|t: int| 0 <= t < resp@.len() ==> self.spec_can_run(resp@[t] as int),
                forall|i: int|
                    0 <= i < step_id && self.spec_can_run(i) ==> resp@.contains(i as usize),
            decreases n - step_id,
        {
            if self.can_run(step_id) {
                let ghost pre = resp@;
                resp.push(step_id);
                proof {
                    assert(resp@ == pre.push(step_id));
                    assert(resp@[resp@.len() - 1] == step_id);
                    assert forall|i: int|
                        0 <= i < step_id + 1 && self.spec_can_run(i) implies resp@.contains(
                        i as usize,
                    ) by {
                        if i < step_id {
                            let t = choose|t: int| 0 <= t < pre.len() && pre[t] == i as usize;
                            assert(resp@[t] == i as usize);
                        } else {
                            assert(resp@[resp@.len() - 1] == i as usize);
                        }
                    }
                }
            }
            step_id = step_id + 1;
        }
        resp
    }

    /// Inserts one finished index into the sorted completed list, keeping it
    /// sorted and duplicate-free.
    fn record_done(&mut self, i: usize)
        requires
            old(self).wf(),
            (i as int) < old(self).n(),
        ensures
            final(self).wf(),
            final(self).stages@ == old(self).stages@,
            final(self).classes@ == old(self).classes@,
            final(self).completed() =~= old(self).completed().insert(i as int),
    {
        let n: usize = self.completed_steps.len();
        let mut pos: usize = 0;
        while pos < n && self.completed_steps[pos] < i
            invariant
                0 <= pos <= n,
                n == self.completed_steps@.len(),
                self == old(self),
                forall|t: int| 0 <= t < pos ==> self.completed_steps@[t] < i,
            decreases n - pos,
        {
            pos = pos + 1;
        }
        if pos < n && self.completed_steps[pos] == i {
            proof {
                assert(self.completed().contains(i as int));
                assert(self.completed() =~= old(self).completed().insert(i as int));
            }
            return ;
        }
        proof {
            assert(forall|t: int|
                pos <= t < self.completed_steps@.len() ==> i < self.completed_steps@[t]) by {
                assert forall|t: int|
                    pos <= t < self.completed_steps@.len() implies i
                    < self.completed_steps@[t] by {
                    if pos < self.completed_steps@.len() {
                        if t > pos {
                            assert(self.completed_steps@[pos as int] < self.completed_steps@[t]);
                        }
                    }
                }
            }
        }
        self.completed_steps.insert(pos, i);
        proof {
            let s = self.completed_steps@;
            let s0 = old(self).completed_steps@;
            assert forall|a: int, b: int| 0 <= a < b < s.len() implies s[a] < s[b] by {
                if a < pos && b == pos {
                } else if a == pos && b > pos {
                } else if b < pos {
                } else if a < pos && b > pos {
                    assert(s[a] == s0[a] && s[b] == s0[b - 1]);
                } else if a > pos {
                    assert(s[a] == s0[a - 1] && s[b] == s0[b - 1]);
                }
            }
            assert forall|x: int| self.completed().contains(x) implies old(
                self,
            ).completed().insert(i as int).contains(x) by {
                let k = choose|k: int| 0 <= k < s.len() && s[k] as int == x;
                if k < pos {
                    assert(s0[k] as int == x);
                } else if k > pos {
                    assert(s0[k - 1] as int == x);
                }
            }
            assert forall|x: int| old(self).completed().insert(i as int).contains(
                x,
            ) implies self.completed().contains(x) by {
                if x == i as int {
                    assert(s[pos as int] as int == x);
                } else {
                    let k = choose|k: int| 0 <= k < s0.len() && s0[k] as int == x;
                    if k < pos {
                        assert(s[k] as int == x);
                    } else {
                        assert(s[k + 1] as int == x);
                    }
                }
            }
            assert(self.completed() =~= old(self).completed().insert(i as int));
        }
    }
}

/// A recorded start order respects stages and intra-stage classes: before any
/// started step, every step of a lower stage — and every step of the same
/// stage with a lower action class — already stands earlier in the order.
pub open spec fn trace_respects_order(stages: Seq<u32>, classes: Seq<u8>, started: Seq<usize>) -> bool {
    forall|b: int, j: int|
        0 <= b < started.len() && 0 <= j < stages.len() && 0 <= #[trigger] started[b]
            < stages.len() && (#[trigger] stages[j] < stages[started[b] as int] || (stages[j]
            == stages[started[b] as int] && classes[j] < classes[started[b] as int]))
            ==> exists|a: int| 0 <= a < b && started[a] as int == j
}

impl Interpreter {
    /// Stage monotonicity: while any step of a lower stage is unfinished, no
    /// step is ready — every unfinished step has a stage at least that of a
    /// ready one.
    pub proof fn lemma_ready_stage_minimal(self, i: int, j: int)
        requires
            self.spec_can_run(i),
            0 <= j < self.n(),
            !self.completed().contains(j),
        ensures
            self.stage_of(j) >= self.stage_of(i),
    {
    }

    /// Intra-stage class order: among the unfinished steps of a ready step's
    /// own stage, none has a lower action class; so no command starts before
    /// every sandbox of its stage is done, and no sandbox before every
    /// resource of its stage.
    pub proof fn lemma_ready_class_minimal(self, i: int, j: int)
        requires
            self.spec_can_run(i),
            0 <= j < self.n(),
            !self.completed().contains(j),
            self.stage_of(j) == self.stage_of(i),
        ensures
            self.class_of(j) >= self.class_of(i),
    {
    }

    /// Every completed index is a step index.
    pub proof fn lemma_completed_in_range(self)
        requires
            self.wf(),
        ensures
            forall|x: int| self.completed().contains(x) ==> 0 <= x < self.n(),
    {
        assert forall|x: int| self.completed().contains(x) implies 0 <= x < self.n() by {
            let k = choose|k: int|
                0 <= k < self.completed_steps@.len() && self.completed_steps@[k] as int == x;
            assert((self.completed_steps@[k] as int) < self.stages@.len());
        }
    }

    /// While any step is unfinished, some step is ready: among the
    /// unfinished steps, one of minimal stage and class can start.
    pub proof fn lemma_some_step_ready(self, start: int)
        requires
            self.wf(),
            0 <= start < self.n(),
            !self.completed().contains(start),
        ensures
            exists|i: int| #[trigger] self.spec_can_run(i),
    {
        self.lemma_min_unfinished(0, start);
    }

    /// Scans the steps keeping an unfinished candidate that no scanned
    /// unfinished step precedes; at the end the candidate is ready.
    proof fn lemma_min_unfinished(self, k: int, best: int)
        requires
            self.wf(),
            0 <= k <= self.n(),
            0 <= best < self.n(),
            !self.completed().contains(best),
            forall|j: int|
                0 <= j < k && !self.completed().contains(j) ==> (#[trigger] self.stage_of(j)
                    > self.stage_of(best) || (self.stage_of(j) == self.stage_of(best)
                    && self.class_of(j) >= self.class_of(best))),
        ensures
            exists|i: int| #[trigger] self.spec_can_run(i),
        decreases self.n() - k,
    {
        if k == self.n() {
            assert(self.spec_can_run(best));
        } else {
            if !self.completed().contains(k) && (self.stage_of(k) < self.stage_of(best) || (
            self.stage_of(k) == self.stage_of(best) && self.class_of(k) < self.class_of(best))) {
                assert forall|j: int|
                    0 <= j < k + 1 && !self.completed().contains(j) implies (
                #[trigger] self.stage_of(j) > self.stage_of(k) || (self.stage_of(j)
                    == self.stage_of(k) && self.class_of(j) >= self.class_of(k))) by {
                    if j < k {
                        assert(self.stage_of(j) > self.stage_of(best) || (self.stage_of(j)
                            == self.stage_of(best) && self.class_of(j) >= self.class_of(best)));
                    }
                }
                self.lemma_min_unfinished(k + 1, k);
            } else {
                self.lemma_min_unfinished(k + 1, best);
            }
        }
    }

    /// Idempotence of `poll`: reporting only step ids that were already
    /// reported leaves the completed set as it was, so exactly the same
    /// ready steps come back, and a step once completed is never re-emitted.
    pub proof fn lemma_poll_idempotent(before: Interpreter, after: Interpreter, done: Seq<usize>)
        requires
            forall|k: int|
                0 <= k < done.len() ==> before.completed().contains(#[trigger] done[k] as int),
            after.completed() == before.completed().union(
                Set::new(|i: int| exists|k: int| 0 <= k < done.len() && done[k] as int == i),
            ),
            after.n() == before.n(),
            forall|i: int|
                0 <= i < before.n() ==> after.stage_of(i) == before.stage_of(i)
                    && after.class_of(i) == before.class_of(i),
        ensures
            after.completed() == before.completed(),
            forall|i: int| after.spec_can_run(i) <==> before.spec_can_run(i),
    {
        assert(after.completed() =~= before.completed());
        assert forall|i: int| after.spec_can_run(i) <==> before.spec_can_run(i) by {
            if after.spec_can_run(i) {
                assert forall|j: int|
                    0 <= j < before.n() && !before.completed().contains(j) implies (
                before.stage_of(j) > before.stage_of(i) || (before.stage_of(j) == before.stage_of(
                    i,
                ) && before.class_of(j) >= before.class_of(i))) by {
                    assert(after.stage_of(j) > after.stage_of(i) || (after.stage_of(j)
                        == after.stage_of(i) && after.class_of(j) >= after.class_of(i)));
                }
                assert(before.spec_can_run(i));
            }
            if before.spec_can_run(i) {
                assert forall|j: int|
                    0 <= j < after.n() && !after.completed().contains(j) implies (after.stage_of(j)
                    > after.stage_of(i) || (after.stage_of(j) == after.stage_of(i)
                    && after.class_of(j) >= after.class_of(i))) by {
                    assert(before.stage_of(j) > before.stage_of(i) || (before.stage_of(j)
                        == before.stage_of(i) && before.class_of(j) >= before.class_of(i)));
                }
                assert(after.spec_can_run(i));
            }
        }
    }
}

/// In a strictly sorted sequence each element is at least its index.
proof fn lemma_sorted_below_index(s: Seq<usize>)
    requires
        sorted_strict(s),
    ensures
        forall|k: int| 0 <= k < s.len() ==> s[k] as int >= k,
    decreases s.len(),
{
    if s.len() > 0 {
        lemma_sorted_bounded_full_aux(s);
    }
}

proof fn lemma_sorted_bounded_full_aux(s: Seq<usize>)
    requires
        sorted_strict(s),
    ensures
        forall|k: int| 0 <= k < s.len() ==> s[k] as int >= k,
{
    assert forall|k: int| 0 <= k < s.len() implies s[k] as int >= k by {
        lemma_sorted_prefix(s, k);
    }
}

proof fn lemma_sorted_prefix(s: Seq<usize>, k: int)
    requires
        sorted_strict(s),
        0 <= k < s.len(),
    ensures
        s[k] as int >= k,
    decreases k,
{
    if k > 0 {
        lemma_sorted_prefix(s, k - 1);
        assert(s[k - 1] < s[k]);
    }
}

/// Some position of the sequence holds the value `j`.
spec fn has_value(s: Seq<usize>, j: int) -> bool {
    exists|k: int| 0 <= k < s.len() && s[k] as int == j
}

/// If a strictly sorted sequence holds every value `0 ..= i`, it holds
/// value `i` exactly at index `i`.
proof fn lemma_full_needs_length(s: Seq<usize>, i: int)
    requires
        sorted_strict(s),
        0 <= i,
        forall|j: int| 0 <= j <= i ==> #[trigger] has_value(s, j),
    ensures
        i < s.len() && s[i] as int == i,
    decreases i,
{
    lemma_sorted_below_index(s);
    if i == 0 {
        assert(has_value(s, 0));
        let k = choose|k: int| 0 <= k < s.len() && s[k] as int == 0;
        assert(s[k] as int >= k);
        assert(k == 0);
    } else {
        lemma_full_needs_length(s, i - 1);
        assert(has_value(s, i));
        let k = choose|k: int| 0 <= k < s.len() && s[k] as int == i;
        assert(s[k] as int >= k);
        if k < i {
            if k < i - 1 {
                assert(s[k] < s[i - 1]);
            }
            assert(false);
        }
        assert(k == i);
    }
}

/// A strictly sorted sequence of `n` indices below `n` is exactly
/// `0, 1, ..., n - 1`.
proof fn lemma_sorted_bounded_full(s: Seq<usize>, n: int)
    requires
        sorted_strict(s),
        s.len() == n,
        forall|k: int| 0 <= k < s.len() ==> (s[k] as int) < n,
    ensures
        forall|k: int| 0 <= k < s.len() ==> s[k] as int == k,
{
    lemma_sorted_bounded_full_aux(s);
    assert forall|k: int| 0 <= k < s.len() implies s[k] as int == k by {
        lemma_sorted_suffix(s, n, k);
    }
}

proof fn lemma_sorted_suffix(s: Seq<usize>, n: int, k: int)
    requires
        sorted_strict(s),
        s.len() <= n,
        forall|t: int| 0 <= t < s.len() ==> (s[t] as int) < n,
        0 <= k < s.len(),
    ensures
        s[k] as int <= n - (s.len() - k),
    decreases s.len() - k,
{
    if k == s.len() - 1 {
    } else {
        lemma_sorted_suffix(s, n, k + 1);
        assert(s[k] < s[k + 1]);
    }
}

} // verus!
