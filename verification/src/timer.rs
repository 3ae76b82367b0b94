use crate::AppError;
use vstd::prelude::*;

verus! {

/// The schedule a health-check task runs on when its creator names no
/// other: one check every twenty time units, with the same bound on each
/// check's duration.
pub const DEFAULT_HEALTH_CHECK_INTERVAL: u64 = 20;

/// What the scheduler does at one wakeup of a health-check task.
#[derive(Clone, Copy, Debug, PartialEq, Eq, Structural)]
pub enum TimerAction {
    /// Terminate the task at once, without running a pending tick.
    Stop,
    /// Run the check operation for this tick.
    RunCheck,
    /// Neither signal is ready: keep waiting.
    Wait,
}

/// The decision at a wakeup.  Cancellation is given explicit priority: when
/// the cancellation signal is ready the task stops, even if the interval
/// tick is ready at the same moment.
pub open spec fn spec_timer_step(cancel_ready: bool, tick_fired: bool) -> TimerAction {
    if cancel_ready {
        TimerAction::Stop
    } else if tick_fired {
        TimerAction::RunCheck
    } else {
        TimerAction::Wait
    }
}

/// Decides what a woken health-check task does, exactly as
/// `spec_timer_step` says; in particular a pending cancellation always wins
/// over a pending tick, so a task cancelled before its first tick never
/// runs its check operation.
pub fn timer_step(cancel_ready: bool, tick_fired: bool) -> (r: TimerAction)
    ensures
        r == spec_timer_step(cancel_ready, tick_fired),
        cancel_ready ==> r == TimerAction::Stop,
        r == TimerAction::RunCheck ==> !cancel_ready && tick_fired,
{
    if cancel_ready {
        TimerAction::Stop
    } else if tick_fired {
        TimerAction::RunCheck
    } else {
        TimerAction::Wait
    }
}

/// One periodic liveness probe: its interval and timeout in time units, and
/// the receiving end of its one-shot cancellation channel.  The check
/// operation itself is supplied by the caller of the scheduler and invoked
/// only when a wakeup decides `RunCheck`.
pub struct HealthCheckTimer {
    pub interval: u64,
    pub timeout: u64,
    pub receiver: tokio::sync::oneshot::Receiver<()>,
}

impl HealthCheckTimer {
    /// A probe with the given schedule, not yet cancelled by anyone who
    /// still holds the matching sender.
    pub fn new(interval: u64, timeout: u64, receiver: tokio::sync::oneshot::Receiver<()>) -> (r:
        HealthCheckTimer)
        ensures
            r.interval == interval,
            r.timeout == timeout,
            r.receiver == receiver,
    {
        HealthCheckTimer { interval, timeout, receiver }
    }

    /// One wakeup: polls the cancellation channel and decides.  The tick has
    /// fired by the time this runs, so the result is `Stop` exactly when
    /// cancellation was pending — never `Wait`.
    pub fn run(&mut self) -> (r: TimerAction)
        ensures
            final(self).interval == old(self).interval,
            final(self).timeout == old(self).timeout,
            r == TimerAction::Stop || r == TimerAction::RunCheck,
    {
        let cancelled = crate::channel::cancel_requested(&mut self.receiver);
        timer_step(cancelled, true)
    }
}

/// One registered health-check task: its identifier and the sending end of
/// its cancellation channel.  Dropping the sender cancels the task.
pub struct TaskEntry {
    pub task_id: String,
    pub sender: tokio::sync::oneshot::Sender<()>,
}

/// The registry of running health-check tasks, keyed by task identifier.
pub struct TaskPool {
    pub data_map: Vec<TaskEntry>,
}

/// What `submit_task` leaves behind: the identifier is registered; every
/// entry not carrying it — sender included — is untouched, in place; an
/// already-registered identifier only has its cancellation handle
/// replaced, never a second entry added.
pub open spec fn submit_post(p0: TaskPool, p1: TaskPool, id: Seq<char>) -> bool {
    &&& p1.spec_contains(id)
    &&& p1.data_map@.len() == p0.data_map@.len() + (if p0.spec_contains(id) {
        0int
    } else {
        1int
    })
    &&& forall|i: int|
        0 <= i < p0.data_map@.len() ==> (#[trigger] p1.data_map@[i]).task_id@
            == p0.data_map@[i].task_id@
    &&& forall|i: int|
        0 <= i < p0.data_map@.len() && p0.data_map@[i].task_id@ != id
            ==> #[trigger] p1.data_map@[i] == p0.data_map@[i]
    &&& (!p0.spec_contains(id) ==> p1.data_map@.last().task_id@ == id)
}

/// What a successful `remove_task` leaves behind: the final registry is
/// the old one with the entry at `idx` — the one registered under `id` —
/// removed, senders and order of every other entry included; the
/// identifier is gone, every other registration survives.
pub open spec fn remove_post(p0: TaskPool, p1: TaskPool, id: Seq<char>, idx: int) -> bool {
    &&& 0 <= idx < p0.data_map@.len()
    &&& p0.data_map@[idx].task_id@ == id
    &&& p1.data_map@ == p0.data_map@.remove(idx)
    &&& !p1.spec_contains(id)
    &&& forall|k: Seq<char>|
        k != id ==> #[trigger] entries_contain(p1.data_map@, k) == entries_contain(
            p0.data_map@,
            k,
        )
}

/// Whether some entry of `s` is registered under `id`.
pub open spec fn entries_contain(s: Seq<TaskEntry>, id: Seq<char>) -> bool {
    exists|i: int| 0 <= i < s.len() && (#[trigger] s[i]).task_id@ == id
}

impl TaskPool {
    /// Whether a task with this identifier is registered.
    pub open spec fn spec_contains(self, id: Seq<char>) -> bool {
        entries_contain(self.data_map@, id)
    }

    /// Identifiers are unique across the pool.
    pub open spec fn wf(self) -> bool {
        forall|i: int, j: int|
            0 <= i < j < self.data_map@.len() ==> (#[trigger] self.data_map@[i]).task_id@ != (
            #[trigger] self.data_map@[j]).task_id@
    }

    /// An empty pool.
    pub fn new() -> (r: TaskPool)
        ensures
            r.data_map@.len() == 0,
            r.wf(),
    {
        TaskPool { data_map: Vec::new() }
    }

    /// Position of the entry registered under `id`, if any.
    fn find_index(&self, task_id: &String) -> (r: Option<usize>)
        ensures
            match r {
                Some(i) => i < self.data_map@.len() && self.data_map@[i as int].task_id@
                    == task_id@,
                None => !self.spec_contains(task_id@),
            },
    {
        let mut i: usize = 0;
        while i < self.data_map.len()
            invariant
                i <= self.data_map@.len(),
                forall|j: int| 0 <= j < i ==> (#[trigger] self.data_map@[j]).task_id@ != task_id@,
            decreases self.data_map@.len() - i,
        {
            if self.data_map[i].task_id.eq(task_id) {
                return Some(i);
            }
            i += 1;
        }
        None
    }

    /// Begins monitoring under `task_id`: registers a fresh cancellation
    /// channel for the task and returns its receiving end, on which the
    /// spawned probe listens.  Re-submitting an identifier replaces its
    /// cancellation handle; it never duplicates the entry.
    pub fn submit_task(&mut self, task_id: String) -> (r: tokio::sync::oneshot::Receiver<()>)
        requires
            old(self).wf(),
            old(self).data_map@.len() < usize::MAX,
        ensures
            final(self).wf(),
            submit_post(*old(self), *final(self), task_id@),
    {
        let (sender, receiver) = crate::channel::oneshot_pair();
        match self.find_index(&task_id) {
            Some(i) => {
                let ghost before = self.data_map@;
                let ghost id = task_id@;
                let _old_entry = self.data_map.remove(i);
                let ghost replacement = TaskEntry { task_id: task_id, sender: sender };
                self.data_map.insert(i, TaskEntry { task_id, sender });
                proof {
                    assert(self.data_map@ =~= before.update(i as int, replacement));
                    assert(self.data_map@.len() == before.len());
                    assert(forall|j: int|
                        0 <= j < before.len() ==> (#[trigger] self.data_map@[j]).task_id@
                            == before[j].task_id@);
                    assert(self.data_map@[i as int].task_id@ == id);
                    assert(entries_contain(self.data_map@, id));
                    assert forall|j: int|
                        0 <= j < before.len() && before[j].task_id@ != id implies (
                    #[trigger] self.data_map@[j]) == before[j] by {
                        assert(j != i);
                    }
                }
            },
            None => {
                let ghost before = self.data_map@;
                let ghost id = task_id@;
                self.data_map.push(TaskEntry { task_id, sender });
                proof {
                    assert(self.data_map@[before.len() as int].task_id@ == id);
                    assert(entries_contain(self.data_map@, id));
                    assert(self.data_map@.last().task_id@ == id);
                    assert(forall|j: int|
                        0 <= j < before.len() ==> (#[trigger] self.data_map@[j]).task_id@
                            == before[j].task_id@);
                    assert(!entries_contain(before, id));
                    assert(forall|j: int|
                        0 <= j < before.len() ==> (#[trigger] before[j]).task_id@ != id);
                }
            },
        }
        receiver
    }

    /// Stops monitoring `task_id`.  Fails with `TaskNotFound` when the
    /// identifier was never submitted or was already removed; on success the
    /// entry is dropped, which closes its cancellation channel and thereby
    /// signals the probe.
    pub fn remove_task(&mut self, task_id: String) -> (r: Result<(), AppError>)
        requires
            old(self).wf(),
        ensures
            final(self).wf(),
            r is Ok <==> old(self).spec_contains(task_id@),
            r is Err ==> r == Err::<(), AppError>(AppError::TaskNotFound) && *final(self) == *old(
                self,
            ),
            r is Ok ==> exists|idx: int|
                remove_post(*old(self), *final(self), task_id@, idx),
    {
        match self.find_index(&task_id) {
            None => Err(AppError::TaskNotFound),
            Some(i) => {
                let ghost before = self.data_map@;
                let _entry = self.data_map.remove(i);
                proof {
                    lemma_remove_keeps_others(before, self.data_map@, i as int, task_id@);
                    assert(remove_post(*old(self), *final(self), task_id@, i as int));
                }
                Ok(())
            },
        }
    }
}

/// Removing the one entry registered under `id` from a pool with unique
/// identifiers removes exactly that registration: `id` is gone and every
/// other identifier's registration is unchanged.
proof fn lemma_remove_keeps_others(
    before: Seq<TaskEntry>,
    after: Seq<TaskEntry>,
    i: int,
    id: Seq<char>,
)
    requires
        0 <= i < before.len(),
        before[i].task_id@ == id,
        after == before.remove(i),
        forall|p: int, q: int|
            0 <= p < q < before.len() ==> (#[trigger] before[p]).task_id@ != (
            #[trigger] before[q]).task_id@,
    ensures
        forall|p: int, q: int|
            0 <= p < q < after.len() ==> (#[trigger] after[p]).task_id@ != (
            #[trigger] after[q]).task_id@,
        !entries_contain(after, id),
        forall|k: Seq<char>|
            k != id ==> #[trigger] entries_contain(after, k) == entries_contain(before, k),
{
    assert forall|p: int, q: int| 0 <= p < q < after.len() implies (#[trigger] after[p]).task_id@
        != (#[trigger] after[q]).task_id@ by {
        assert(after[p] == if p < i {
            before[p]
        } else {
            before[p + 1]
        });
        assert(after[q] == if q < i {
            before[q]
        } else {
            before[q + 1]
        });
    }
    assert forall|j: int| 0 <= j < after.len() implies (#[trigger] after[j]).task_id@ != id by {
        assert(after[j] == if j < i {
            before[j]
        } else {
            before[j + 1]
        });
    }
    assert forall|k: Seq<char>| k != id implies #[trigger] entries_contain(after, k)
        == entries_contain(before, k) by {
        if entries_contain(after, k) {
            let j = choose|j: int| 0 <= j < after.len() && (#[trigger] after[j]).task_id@ == k;
            if j < i {
                assert(before[j].task_id@ == k);
            } else {
                assert(before[j + 1].task_id@ == k);
            }
            assert(entries_contain(before, k));
        }
        if entries_contain(before, k) {
            let j = choose|j: int| 0 <= j < before.len() && (#[trigger] before[j]).task_id@ == k;
            if j < i {
                assert(after[j].task_id@ == k);
                assert(entries_contain(after, k));
            } else if j > i {
                assert(after[j - 1].task_id@ == k);
                assert(entries_contain(after, k));
            }
        }
    }
}


/// Submitting a task and at once removing the same identifier always
/// succeeds, and afterwards the identifier is no longer registered, so the
/// probe's cancellation channel is closed and its check operation is never
/// invoked again.
pub proof fn lemma_submit_then_remove(
    p0: TaskPool,
    p1: TaskPool,
    p2: TaskPool,
    id: Seq<char>,
    r: Result<(), AppError>,
)
    requires
        submit_post(p0, p1, id),
        r is Ok <==> p1.spec_contains(id),
        r is Ok ==> exists|idx: int| remove_post(p1, p2, id, idx),
    ensures
        r is Ok,
        !p2.spec_contains(id),
{
    let idx = choose|idx: int| remove_post(p1, p2, id, idx);
    assert(remove_post(p1, p2, id, idx));
}

/// A health-check task signalled for cancellation before its first
/// interval tick never invokes its check operation: whenever cancellation
/// is pending, the decision is to stop, whatever the tick did.
pub proof fn lemma_cancellation_wins(tick_fired: bool)
    ensures
        spec_timer_step(true, tick_fired) == TimerAction::Stop,
        spec_timer_step(true, tick_fired) != TimerAction::RunCheck,
{
}

} // verus!
