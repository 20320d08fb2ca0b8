//! The bookkeeping of the job queue: which assets wait to run, how many run, the bound on
//! that number, and the dependencies an asset waits for, in the order they were parked. The
//! tasks that run the jobs are the host's; every count and choice they follow is here.
use vstd::prelude::*;
use crate::assets::{Status, spec_is_finished};

verus! {

/// Whether no id occurs twice.
pub open spec fn distinct(ids: Seq<u64>) -> bool {
    forall|i: int, j: int| 0 <= i < ids.len() && 0 <= j < ids.len() && i != j ==> ids[i] != ids[j]
}

/// How many of the first `n` statuses are `Submitted`.
pub open spec fn count_submitted(statuses: Seq<Status>, n: nat) -> nat
    decreases n,
{
    if n == 0 || n > statuses.len() {
        0
    } else {
        count_submitted(statuses, (n - 1) as nat) + if statuses[n - 1] == Status::Submitted {
            1nat
        } else {
            0nat
        }
    }
}

/// The job queue's books.
pub struct JobBook {
    jobs: Vec<u64>,
    running: usize,
    capacity: usize,
    local: Vec<(u64, Vec<u64>)>,
}

/// The parked dependencies of a parent, in order; empty when it has none.
pub open spec fn parked(local: Seq<(u64, Vec<u64>)>, parent: u64) -> Seq<u64>
    decreases local.len(),
{
    if local.len() == 0 {
        Seq::empty()
    } else if local.last().0 == parent {
        local.last().1@
    } else {
        parked(local.drop_last(), parent)
    }
}

/// Whether the parents are distinct and each holds a non-empty queue of distinct ids.
pub open spec fn local_ok(local: Seq<(u64, Vec<u64>)>) -> bool {
    &&& forall|i: int, j: int|
        0 <= i < local.len() && 0 <= j < local.len() && i != j ==> (#[trigger] local[i]).0 != (#[trigger] local[j]).0
    &&& forall|i: int| 0 <= i < local.len() ==> (#[trigger] local[i]).1@.len() > 0 && distinct(local[i].1@)
}

pub proof fn lemma_parked(local: Seq<(u64, Vec<u64>)>, parent: u64)
    requires
        local_ok(local),
    ensures
        forall|i: int| 0 <= i < local.len() && (#[trigger] local[i]).0 == parent ==> parked(local, parent) == local[i].1@,
        (forall|i: int| 0 <= i < local.len() ==> (#[trigger] local[i]).0 != parent) ==> parked(local, parent) == Seq::<u64>::empty(),
    decreases local.len(),
{
    if local.len() > 0 {
        let rest = local.drop_last();
        assert(local_ok(rest)) by {
            assert forall|i: int, j: int| 0 <= i < rest.len() && 0 <= j < rest.len() && i != j implies (#[trigger] rest[i]).0 != (#[trigger] rest[j]).0 by {
                assert(rest[i] == local[i] && rest[j] == local[j]);
            }
            assert forall|i: int| 0 <= i < rest.len() implies (#[trigger] rest[i]).1@.len() > 0 && distinct(rest[i].1@) by {
                assert(rest[i] == local[i]);
            }
        }
        lemma_parked(rest, parent);
        assert forall|i: int| 0 <= i < local.len() && (#[trigger] local[i]).0 == parent implies parked(local, parent) == local[i].1@ by {
            if i < local.len() - 1 {
                assert(rest[i] == local[i]);
                assert(local[i].0 != local[local.len() - 1].0);
            }
        }
        if forall|i: int| 0 <= i < local.len() ==> (#[trigger] local[i]).0 != parent {
            assert(local[local.len() - 1].0 != parent);
            assert forall|i: int| 0 <= i < rest.len() implies (#[trigger] rest[i]).0 != parent by {
                assert(rest[i] == local[i]);
            }
        }
    }
}

/// What an attempt to start a job at once did.
#[derive(Debug, Clone, Copy, PartialEq, Eq, Structural)]
pub enum StartNow {
    /// No running slot was free: the job waits in the queue.
    NoSlot,
    /// The job runs, its asset now in this status.
    Started(Status),
    /// Another run claimed or finished the asset: the slot was given back.
    AlreadyClaimed,
}

impl JobBook {
    /// The assets waiting or running, each once.
    pub closed spec fn jobs(&self) -> Seq<u64> {
        self.jobs@
    }

    /// How many jobs run.
    pub closed spec fn running(&self) -> nat {
        self.running as nat
    }

    /// How many jobs may run at once.
    pub closed spec fn capacity(&self) -> nat {
        self.capacity as nat
    }

    /// The dependencies parked under `parent`, oldest first.
    pub closed spec fn parked_under(&self, parent: u64) -> Seq<u64> {
        parked(self.local@, parent)
    }

    pub closed spec fn wf(&self) -> bool {
        &&& self.running <= self.capacity
        &&& distinct(self.jobs@)
        &&& local_ok(self.local@)
    }

    /// Empty books for a queue running at most `capacity` jobs at once.
    pub fn new(capacity: usize) -> (r: Self)
        ensures
            r.wf(),
            r.jobs() == Seq::<u64>::empty(),
            r.running() == 0,
            r.capacity() == capacity,
            forall|p: u64| r.parked_under(p) == Seq::<u64>::empty(),
    {
        JobBook { jobs: Vec::new(), running: 0, capacity, local: Vec::new() }
    }

    pub fn running_count(&self) -> (r: usize)
        ensures
            r == self.running(),
    {
        self.running
    }

    pub fn queued_jobs_count(&self) -> (r: usize)
        ensures
            r == self.jobs().len(),
    {
        self.jobs.len()
    }

    /// How many jobs wait to run: those in status `Submitted`. `statuses` holds the status of
    /// each job, in order.
    pub fn waiting_jobs_count(&self, statuses: &Vec<Status>) -> (r: usize)
        requires
            statuses@.len() == self.jobs().len(),
        ensures
            r == count_submitted(statuses@, statuses@.len() as nat),
    {
        let mut n: usize = 0;
        let mut i: usize = 0;
        while i < statuses.len()
            invariant
                0 <= i <= statuses.len(),
                n == count_submitted(statuses@, i as nat),
                n <= i,
            decreases statuses.len() - i,
        {
            if statuses[i] == Status::Submitted {
                n = n + 1;
            }
            i = i + 1;
        }
        n
    }

    fn holds(ids: &Vec<u64>, id: u64) -> (r: bool)
        ensures
            r == ids@.contains(id),
    {
        let mut i: usize = 0;
        while i < ids.len()
            invariant
                0 <= i <= ids.len(),
                forall|j: int| 0 <= j < i ==> ids@[j] != id,
            decreases ids.len() - i,
        {
            if ids[i] == id {
                proof {
                    assert(ids@[i as int] == id);
                }
                return true;
            }
            i = i + 1;
        }
        false
    }

    /// Records a job, unless it is already recorded.
    pub fn enqueue(&mut self, id: u64)
        requires
            old(self).wf(),
        ensures
            final(self).wf(),
            final(self).jobs() == if old(self).jobs().contains(id) {
                old(self).jobs()
            } else {
                old(self).jobs().push(id)
            },
            final(self).running() == old(self).running(),
            final(self).capacity() == old(self).capacity(),
            forall|p: u64| final(self).parked_under(p) == old(self).parked_under(p),
    {
        if !Self::holds(&self.jobs, id) {
            self.jobs.push(id);
            proof {
                assert(distinct(self.jobs@)) by {
                    assert forall|i: int, j: int| 0 <= i < self.jobs@.len() && 0 <= j < self.jobs@.len() && i != j implies self.jobs@[i] != self.jobs@[j] by {
                        if i < old(self).jobs@.len() && j < old(self).jobs@.len() {
                            assert(old(self).jobs@[i] != old(self).jobs@[j]);
                        } else if i < old(self).jobs@.len() {
                            assert(old(self).jobs@.contains(self.jobs@[i]));
                        } else {
                            assert(old(self).jobs@.contains(self.jobs@[j]));
                        }
                    }
                }
            }
        }
    }

    /// Takes a running slot when one is free; whether it was taken.
    pub fn try_reserve_slot(&mut self) -> (r: bool)
        requires
            old(self).wf(),
        ensures
            final(self).wf(),
            r == (old(self).running() < old(self).capacity()),
            final(self).running() == if r { old(self).running() + 1 } else { old(self).running() },
            final(self).jobs() == old(self).jobs(),
            final(self).capacity() == old(self).capacity(),
            forall|p: u64| final(self).parked_under(p) == old(self).parked_under(p),
    {
        if self.running < self.capacity {
            self.running = self.running + 1;
            true
        } else {
            false
        }
    }

    /// Tries to start the job `id`, whose asset is in `status`, at once: records the job,
    /// takes a running slot when one is free, and claims the asset; when the asset is already
    /// claimed or finished, the slot is given back.
    pub fn start_immediately(&mut self, id: u64, status: Status) -> (r: StartNow)
        requires
            old(self).wf(),
        ensures
            final(self).wf(),
            final(self).jobs() == if old(self).jobs().contains(id) {
                old(self).jobs()
            } else {
                old(self).jobs().push(id)
            },
            final(self).capacity() == old(self).capacity(),
            forall|p: u64| final(self).parked_under(p) == old(self).parked_under(p),
            old(self).running() >= old(self).capacity() ==> r == StartNow::NoSlot && final(self).running() == old(self).running(),
            old(self).running() < old(self).capacity() ==> match spec_claim(status) {
                Some(s) => r == StartNow::Started(s) && final(self).running() == old(self).running() + 1,
                None => r == StartNow::AlreadyClaimed && final(self).running() == old(self).running(),
            },
    {
        self.enqueue(id);
        if !self.try_reserve_slot() {
            return StartNow::NoSlot;
        }
        match claim_for_run(status) {
            Some(s) => StartNow::Started(s),
            None => {
                self.release_slot();
                StartNow::AlreadyClaimed
            },
        }
    }

    /// Gives a running slot back.
    pub fn release_slot(&mut self)
        requires
            old(self).wf(),
            old(self).running() > 0,
        ensures
            final(self).wf(),
            final(self).running() == old(self).running() - 1,
            final(self).jobs() == old(self).jobs(),
            final(self).capacity() == old(self).capacity(),
            forall|p: u64| final(self).parked_under(p) == old(self).parked_under(p),
    {
        self.running = self.running - 1;
    }

    /// Drops the jobs that are finished: `statuses` holds the status of each job, in order.
    /// Returns how many were dropped.
    pub fn cleanup_completed(&mut self, statuses: &Vec<Status>) -> (r: usize)
        requires
            old(self).wf(),
            statuses@.len() == old(self).jobs().len(),
        ensures
            final(self).wf(),
            final(self).jobs() == old(self).jobs().filter(|id: u64| exists|i: int| 0 <= i < old(self).jobs().len() && old(self).jobs()[i] == id && !spec_is_finished(statuses@[i])),
            r == old(self).jobs().len() - final(self).jobs().len(),
            final(self).running() == old(self).running(),
            final(self).capacity() == old(self).capacity(),
            forall|p: u64| final(self).parked_under(p) == old(self).parked_under(p),
    {
        let ghost initial = self.jobs@;
        let ghost keep_pred = |id: u64| exists|i: int| 0 <= i < initial.len() && initial[i] == id && !spec_is_finished(statuses@[i]);
        let mut keep: Vec<u64> = Vec::new();
        let mut i: usize = 0;
        proof {
            assert(initial.subrange(0, 0).filter(keep_pred) =~= Seq::<u64>::empty()) by {
                reveal(Seq::filter);
            }
        }
        while i < self.jobs.len()
            invariant
                0 <= i <= self.jobs.len(),
                self.jobs@ == initial,
                statuses@.len() == initial.len(),
                distinct(initial),
                keep@ == initial.subrange(0, i as int).filter(keep_pred),
                keep@.len() <= i,
                forall|x: u64| #[trigger] keep_pred(x) == exists|k: int| 0 <= k < initial.len() && initial[k] == x && !spec_is_finished(statuses@[k]),
            decreases self.jobs.len() - i,
        {
            let id = self.jobs[i];
            let finished = statuses[i].is_finished();
            proof {
                assert(initial.subrange(0, i + 1) =~= initial.subrange(0, i as int).push(id));
                initial.subrange(0, i as int).lemma_filter_push(id, keep_pred);
                assert(keep_pred(id) == exists|k: int| 0 <= k < initial.len() && initial[k] == id && !spec_is_finished(statuses@[k]));
                assert(id == initial[i as int]);
                if keep_pred(id) {
                    let k = choose|k: int| 0 <= k < initial.len() && initial[k] == id && !spec_is_finished(statuses@[k]);
                    assert(initial[k] == initial[i as int]);
                    assert(k == i);
                } else {
                    assert(!(initial[i as int] == id && !spec_is_finished(statuses@[i as int])));
                }
                initial.subrange(0, i as int).lemma_filter_len(keep_pred);
            }
            if !finished {
                keep.push(id);
            }
            i = i + 1;
        }
        proof {
            assert(initial.subrange(0, initial.len() as int) =~= initial);
            assert(distinct(keep@)) by {
                assert forall|a: int, b: int| 0 <= a < keep@.len() && 0 <= b < keep@.len() && a != b implies keep@[a] != keep@[b] by {
                    lemma_filter_distinct(initial, keep_pred);
                }
            }
        }
        let removed = self.jobs.len() - keep.len();
        self.jobs = keep;
        removed
    }

    fn local_index(&self, parent: u64) -> (r: Option<usize>)
        requires
            self.wf(),
        ensures
            match r {
                Some(k) => k < self.local@.len() && self.local@[k as int].0 == parent,
                None => forall|i: int| 0 <= i < self.local@.len() ==> (#[trigger] self.local@[i]).0 != parent,
            },
    {
        let mut i: usize = 0;
        while i < self.local.len()
            invariant
                0 <= i <= self.local.len(),
                forall|j: int| 0 <= j < i ==> (#[trigger] self.local@[j]).0 != parent,
            decreases self.local.len() - i,
        {
            if self.local[i].0 == parent {
                return Some(i);
            }
            i = i + 1;
        }
        None
    }

    /// Parks a dependency under its parent, behind those parked before it, unless it is
    /// already parked there.
    pub fn push_local_dependency(&mut self, parent: u64, dep: u64)
        requires
            old(self).wf(),
        ensures
            final(self).wf(),
            final(self).parked_under(parent) == if old(self).parked_under(parent).contains(dep) {
                old(self).parked_under(parent)
            } else {
                old(self).parked_under(parent).push(dep)
            },
            forall|p: u64| p != parent ==> final(self).parked_under(p) == old(self).parked_under(p),
            final(self).jobs() == old(self).jobs(),
            final(self).running() == old(self).running(),
            final(self).capacity() == old(self).capacity(),
    {
        proof {
            lemma_parked(self.local@, parent);
        }
        match self.local_index(parent) {
            Some(k) => {
                let (p, mut queue) = self.local.remove(k);
                let ghost before = queue@;
                if !Self::holds(&queue, dep) {
                    queue.push(dep);
                }
                let ghost after = queue@;
                proof {
                    assert(distinct(after)) by {
                        assert forall|i: int, j: int| 0 <= i < after.len() && 0 <= j < after.len() && i != j implies after[i] != after[j] by {
                            if i < before.len() && j < before.len() {
                                assert(before[i] != before[j]);
                            } else if i < before.len() {
                                assert(before.contains(after[i]));
                            } else if j < before.len() {
                                assert(before.contains(after[j]));
                            }
                        }
                    }
                }
                self.local.insert(k, (p, queue));
                proof {
                    local_after_replace(old(self).local@, self.local@, k as int, after);
                    lemma_parked(self.local@, parent);
                    assert(self.local@[k as int].0 == parent);
                    assert forall|q: u64| q != parent implies self.parked_under(q) == old(self).parked_under(q) by {
                        lemma_parked(self.local@, q);
                        lemma_parked(old(self).local@, q);
                        if exists|i: int| 0 <= i < old(self).local@.len() && (#[trigger] old(self).local@[i]).0 == q {
                            let i = choose|i: int| 0 <= i < old(self).local@.len() && (#[trigger] old(self).local@[i]).0 == q;
                            assert(i != k);
                            assert(self.local@[i] == old(self).local@[i]);
                        } else {
                            assert forall|i: int| 0 <= i < self.local@.len() implies (#[trigger] self.local@[i]).0 != q by {
                                if i != k {
                                    assert(self.local@[i] == old(self).local@[i]);
                                }
                            }
                        }
                    }
                }
            },
            None => {
                let mut queue: Vec<u64> = Vec::new();
                queue.push(dep);
                let ghost after = queue@;
                self.local.push((parent, queue));
                proof {
                    assert(after =~= seq![dep]);
                    assert(local_ok(self.local@)) by {
                        assert forall|i: int, j: int| 0 <= i < self.local@.len() && 0 <= j < self.local@.len() && i != j implies (#[trigger] self.local@[i]).0 != (#[trigger] self.local@[j]).0 by {
                            if i < old(self).local@.len() && j < old(self).local@.len() {
                                assert(self.local@[i] == old(self).local@[i] && self.local@[j] == old(self).local@[j]);
                            } else if i < old(self).local@.len() {
                                assert(self.local@[i] == old(self).local@[i]);
                            } else {
                                assert(self.local@[j] == old(self).local@[j]);
                            }
                        }
                        assert forall|i: int| 0 <= i < self.local@.len() implies (#[trigger] self.local@[i]).1@.len() > 0 && distinct(self.local@[i].1@) by {
                            if i < old(self).local@.len() {
                                assert(self.local@[i] == old(self).local@[i]);
                            }
                        }
                    }
                    assert(self.local@.drop_last() =~= old(self).local@);
                    assert forall|q: u64| q != parent implies self.parked_under(q) == old(self).parked_under(q) by {}
                }
            },
        }
    }

    /// Takes the oldest dependency parked under `parent`.
    pub fn pop_local_dependency(&mut self, parent: u64) -> (r: Option<u64>)
        requires
            old(self).wf(),
        ensures
            final(self).wf(),
            old(self).parked_under(parent).len() == 0 ==> r is None && final(self).parked_under(parent) == old(self).parked_under(parent),
            old(self).parked_under(parent).len() > 0 ==> r == Some(old(self).parked_under(parent)[0])
                && final(self).parked_under(parent) == old(self).parked_under(parent).drop_first(),
            forall|p: u64| p != parent ==> final(self).parked_under(p) == old(self).parked_under(p),
            final(self).jobs() == old(self).jobs(),
            final(self).running() == old(self).running(),
            final(self).capacity() == old(self).capacity(),
    {
        proof {
            lemma_parked(self.local@, parent);
        }
        match self.local_index(parent) {
            Some(k) => {
                let (p, mut queue) = self.local.remove(k);
                let ghost before = queue@;
                let first = queue.remove(0);
                let ghost after = queue@;
                proof {
                    assert(after =~= before.drop_first());
                }
                if queue.len() > 0 {
                    proof {
                        assert(distinct(after)) by {
                            assert forall|i: int, j: int| 0 <= i < after.len() && 0 <= j < after.len() && i != j implies after[i] != after[j] by {
                                assert(after[i] == before[i + 1] && after[j] == before[j + 1]);
                            }
                        }
                    }
                    self.local.insert(k, (p, queue));
                    proof {
                        local_after_replace(old(self).local@, self.local@, k as int, after);
                        lemma_parked(self.local@, parent);
                        assert(self.local@[k as int].0 == parent);
                        assert forall|q: u64| q != parent implies self.parked_under(q) == old(self).parked_under(q) by {
                            lemma_parked(self.local@, q);
                            lemma_parked(old(self).local@, q);
                            if exists|i: int| 0 <= i < old(self).local@.len() && (#[trigger] old(self).local@[i]).0 == q {
                                let i = choose|i: int| 0 <= i < old(self).local@.len() && (#[trigger] old(self).local@[i]).0 == q;
                                assert(self.local@[i] == old(self).local@[i]);
                            } else {
                                assert forall|i: int| 0 <= i < self.local@.len() implies (#[trigger] self.local@[i]).0 != q by {
                                    if i != k {
                                        assert(self.local@[i] == old(self).local@[i]);
                                    }
                                }
                            }
                        }
                    }
                } else {
                    proof {
                        local_after_remove(old(self).local@, self.local@, k as int);
                        lemma_parked(self.local@, parent);
                        assert forall|i: int| 0 <= i < self.local@.len() implies (#[trigger] self.local@[i]).0 != parent by {
                            let i2 = if i < k { i } else { i + 1 };
                            assert(self.local@[i] == old(self).local@[i2]);
                        }
                        assert(after =~= Seq::<u64>::empty());
                        assert forall|q: u64| q != parent implies self.parked_under(q) == old(self).parked_under(q) by {
                            lemma_parked(self.local@, q);
                            lemma_parked(old(self).local@, q);
                            if exists|i: int| 0 <= i < old(self).local@.len() && (#[trigger] old(self).local@[i]).0 == q {
                                let i = choose|i: int| 0 <= i < old(self).local@.len() && (#[trigger] old(self).local@[i]).0 == q;
                                let i3 = if i < k { i } else { i - 1 };
                                assert(self.local@[i3] == old(self).local@[i]);
                            } else {
                                assert forall|i: int| 0 <= i < self.local@.len() implies (#[trigger] self.local@[i]).0 != q by {
                                    let i2 = if i < k { i } else { i + 1 };
                                    assert(self.local@[i] == old(self).local@[i2]);
                                }
                            }
                        }
                    }
                }
                Some(first)
            },
            None => None,
        }
    }

    /// Takes every dependency parked under `parent`, oldest first.
    pub fn take_local_dependencies(&mut self, parent: u64) -> (r: Vec<u64>)
        requires
            old(self).wf(),
        ensures
            final(self).wf(),
            r@ == old(self).parked_under(parent),
            final(self).parked_under(parent) == Seq::<u64>::empty(),
            forall|p: u64| p != parent ==> final(self).parked_under(p) == old(self).parked_under(p),
            final(self).jobs() == old(self).jobs(),
            final(self).running() == old(self).running(),
            final(self).capacity() == old(self).capacity(),
    {
        proof {
            lemma_parked(self.local@, parent);
        }
        match self.local_index(parent) {
            Some(k) => {
                let (_, queue) = self.local.remove(k);
                proof {
                    local_after_remove(old(self).local@, self.local@, k as int);
                    lemma_parked(self.local@, parent);
                    assert forall|i: int| 0 <= i < self.local@.len() implies (#[trigger] self.local@[i]).0 != parent by {
                        let i2 = if i < k { i } else { i + 1 };
                        assert(self.local@[i] == old(self).local@[i2]);
                    }
                    assert forall|q: u64| q != parent implies self.parked_under(q) == old(self).parked_under(q) by {
                        lemma_parked(self.local@, q);
                        lemma_parked(old(self).local@, q);
                        if exists|i: int| 0 <= i < old(self).local@.len() && (#[trigger] old(self).local@[i]).0 == q {
                            let i = choose|i: int| 0 <= i < old(self).local@.len() && (#[trigger] old(self).local@[i]).0 == q;
                            let i3 = if i < k { i } else { i - 1 };
                            assert(self.local@[i3] == old(self).local@[i]);
                        } else {
                            assert forall|i: int| 0 <= i < self.local@.len() implies (#[trigger] self.local@[i]).0 != q by {
                                let i2 = if i < k { i } else { i + 1 };
                                assert(self.local@[i] == old(self).local@[i2]);
                            }
                        }
                    }
                }
                queue
            },
            None => Vec::new(),
        }
    }
}

proof fn lemma_filter_distinct(s: Seq<u64>, p: spec_fn(u64) -> bool)
    requires
        distinct(s),
    ensures
        distinct(s.filter(p)),
    decreases s.len(),
{
    reveal(Seq::filter);
    if s.len() > 0 {
        let rest = s.drop_last();
        assert(distinct(rest)) by {
            assert forall|i: int, j: int| 0 <= i < rest.len() && 0 <= j < rest.len() && i != j implies rest[i] != rest[j] by {
                assert(rest[i] == s[i] && rest[j] == s[j]);
            }
        }
        lemma_filter_distinct(rest, p);
        if p(s.last()) {
            let f = rest.filter(p);
            assert forall|k: int| 0 <= k < f.len() implies f[k] != s.last() by {
                rest.lemma_filter_contains_rev(p, f[k]);
                let m = choose|m: int| 0 <= m < rest.len() && rest[m] == f[k];
                assert(s[m] == rest[m]);
                assert(f.contains(f[k]));
            }
            let g = f.push(s.last());
            assert forall|i: int, j: int| 0 <= i < g.len() && 0 <= j < g.len() && i != j implies g[i] != g[j] by {
                if i < f.len() && j < f.len() {
                } else if i < f.len() {
                    assert(g[i] == f[i]);
                } else {
                    assert(g[j] == f[j]);
                }
            }
        }
    }
}

proof fn local_after_replace(before: Seq<(u64, Vec<u64>)>, after: Seq<(u64, Vec<u64>)>, k: int, q: Seq<u64>)
    requires
        local_ok(before),
        0 <= k < before.len(),
        after.len() == before.len(),
        after[k].0 == before[k].0,
        after[k].1@ == q,
        q.len() > 0,
        distinct(q),
        forall|i: int| 0 <= i < before.len() && i != k ==> after[i] == before[i],
    ensures
        local_ok(after),
{
    assert forall|i: int, j: int| 0 <= i < after.len() && 0 <= j < after.len() && i != j implies (#[trigger] after[i]).0 != (#[trigger] after[j]).0 by {
        assert(after[i].0 == before[i].0 && after[j].0 == before[j].0);
    }
    assert forall|i: int| 0 <= i < after.len() implies (#[trigger] after[i]).1@.len() > 0 && distinct(after[i].1@) by {
        if i != k {
            assert(after[i] == before[i]);
        }
    }
}

proof fn local_after_remove(before: Seq<(u64, Vec<u64>)>, after: Seq<(u64, Vec<u64>)>, k: int)
    requires
        local_ok(before),
        0 <= k < before.len(),
        after == before.remove(k),
    ensures
        local_ok(after),
{
    assert forall|i: int, j: int| 0 <= i < after.len() && 0 <= j < after.len() && i != j implies (#[trigger] after[i]).0 != (#[trigger] after[j]).0 by {
        let i2 = if i < k { i } else { i + 1 };
        let j2 = if j < k { j } else { j + 1 };
        assert(after[i] == before[i2] && after[j] == before[j2]);
    }
    assert forall|i: int| 0 <= i < after.len() implies (#[trigger] after[i]).1@.len() > 0 && distinct(after[i].1@) by {
        let i2 = if i < k { i } else { i + 1 };
        assert(after[i] == before[i2]);
    }
}

/// What a run claim does to an asset in status `s`: an asset not yet run or queued to run is
/// claimed and becomes `Processing`; any other is left to whoever has it.
pub open spec fn spec_claim(s: Status) -> Option<Status> {
    match s {
        Status::Nothing | Status::Recipe | Status::Submitted => Some(Status::Processing),
        _ => None,
    }
}

pub fn claim_for_run(s: Status) -> (r: Option<Status>)
    ensures
        r == spec_claim(s),
{
    match s {
        Status::Nothing | Status::Recipe | Status::Submitted => Some(Status::Processing),
        _ => None,
    }
}

/// What an abandoned claim does: a run that stopped while processing or waiting for
/// dependencies is queued again as `Submitted`; any other status stays.
pub open spec fn spec_requeue_abandoned(s: Status) -> Option<Status> {
    match s {
        Status::Processing | Status::Dependencies => Some(Status::Submitted),
        _ => None,
    }
}

pub fn requeue_abandoned(s: Status) -> (r: Option<Status>)
    ensures
        r == spec_requeue_abandoned(s),
{
    match s {
        Status::Processing | Status::Dependencies => Some(Status::Submitted),
        _ => None,
    }
}

/// A run claim succeeds exactly for an asset that has not started running: one with nothing
/// yet, one holding its recipe, and one queued (`Submitted`); the claim makes it `Processing`,
/// an in-flight status that a cancellation can stop. An asset already in flight, being stored or
/// finished is not claimed again.
pub proof fn law_claim_takes_unstarted_assets(s: Status)
    ensures
        spec_claim(s) is Some <==> (s == Status::Nothing || s == Status::Recipe || s == Status::Submitted),
        spec_claim(s) matches Some(t) ==> t == Status::Processing && crate::assets::spec_cancellable(t),
        (!spec_is_finished(s) && !crate::assets::spec_cancellable(s) && s != Status::Storing) ==> spec_claim(s)
            == Some(Status::Processing),
        crate::assets::spec_cancellable(s) && s != Status::Submitted ==> spec_claim(s) is None,
        spec_is_finished(s) ==> spec_claim(s) is None,
{
}

/// An abandoned claim puts its asset where a new claim can take it.
pub proof fn law_abandoned_run_can_be_claimed_again(s: Status)
    requires
        spec_requeue_abandoned(s) is Some,
    ensures
        spec_claim(spec_requeue_abandoned(s)->0) == Some(Status::Processing),
{
}

/// A claim abandoned mid-run (processing or waiting for dependencies) puts its asset back in
/// the queue as `Submitted`; an asset in any other status is left as it is.
pub proof fn law_abandoned_claim_is_requeued(s: Status)
    ensures
        spec_requeue_abandoned(s) is Some <==> (s == Status::Processing || s == Status::Dependencies),
        spec_requeue_abandoned(s) matches Some(t) ==> t == Status::Submitted,
{
}

/// The queue never runs more jobs than its capacity: a slot is taken only when one is free.
pub proof fn law_running_within_capacity(b: JobBook)
    requires
        b.wf(),
    ensures
        b.running() <= b.capacity(),
{
}

} // verus!
