//! How the messages a controller sends reach its workers.
//!
//! The task queue hands out messages in the order they were sent, each to one
//! receiver: the k-th receive takes the k-th message. A schedule lists, for
//! each receive, the worker that made it. Whatever the schedule, a closed
//! controller's queue is drained completely exactly when all its workers
//! have stopped, and until then some worker is still taking messages.
use vstd::prelude::*;
use crate::message::Message;
use crate::pool::{all_files, terminates, ThreadPool};
use crate::worker::{next_state, WorkerState};

verus! {

/// The states of `n` workers after the receives of `schedule`, the k-th of
/// which takes `queue[k]` and is made by worker `schedule[k]`.
pub open spec fn states_after(queue: Seq<Message>, n: nat, schedule: Seq<nat>) -> Seq<
    WorkerState,
>
    decreases schedule.len(),
{
    if schedule.len() == 0 {
        Seq::new(n, |i: int| WorkerState::Running)
    } else {
        let k = schedule.len() - 1;
        let prev = states_after(queue, n, schedule.drop_last());
        let w = schedule[k] as int;
        prev.update(w, next_state(prev[w], queue[k]))
    }
}

/// Whether the receives of `schedule` can happen: each takes a message that
/// is on the queue, and is made by a worker that is still running.
pub open spec fn feasible(queue: Seq<Message>, n: nat, schedule: Seq<nat>) -> bool
    decreases schedule.len(),
{
    if schedule.len() == 0 {
        true
    } else {
        let k = schedule.len() - 1;
        &&& feasible(queue, n, schedule.drop_last())
        &&& k < queue.len()
        &&& schedule[k] < n
        &&& states_after(queue, n, schedule.drop_last())[schedule[k] as int]
            == WorkerState::Running
    }
}

/// The number of stopped workers among `states`.
pub open spec fn stopped(states: Seq<WorkerState>) -> nat
    decreases states.len(),
{
    if states.len() == 0 {
        0
    } else {
        stopped(states.drop_last()) + if states.last() == WorkerState::Terminated {
            1nat
        } else {
            0nat
        }
    }
}

/// The number of stop signals among `queue`.
pub open spec fn signals(queue: Seq<Message>) -> nat
    decreases queue.len(),
{
    if queue.len() == 0 {
        0
    } else {
        signals(queue.drop_last()) + if queue.last() is Terminate {
            1nat
        } else {
            0nat
        }
    }
}

proof fn lemma_stopped_bounds(states: Seq<WorkerState>)
    ensures
        stopped(states) <= states.len(),
        stopped(states) == states.len() ==> forall|w: int|
            0 <= w < states.len() ==> #[trigger] states[w] == WorkerState::Terminated,
        stopped(states) < states.len() ==> exists|w: int|
            0 <= w < states.len() && #[trigger] states[w] == WorkerState::Running,
    decreases states.len(),
{
    if states.len() > 0 {
        let prev = states.drop_last();
        lemma_stopped_bounds(prev);
        let last = states.len() - 1;
        if stopped(states) == states.len() {
            assert forall|w: int| 0 <= w < states.len() implies #[trigger] states[w]
                == WorkerState::Terminated by {
                if w < last {
                    assert(prev[w] == states[w]);
                }
            }
        }
        if stopped(states) < states.len() {
            if states.last() == WorkerState::Running {
                assert(states[last] == WorkerState::Running);
            } else {
                let w = choose|w: int| 0 <= w < prev.len() && #[trigger] prev[w] == WorkerState::Running;
                assert(states[w] == WorkerState::Running);
            }
        }
    }
}

proof fn lemma_stopped_update(states: Seq<WorkerState>, w: int, s: WorkerState)
    requires
        0 <= w < states.len(),
        states[w] == WorkerState::Running,
    ensures
        stopped(states.update(w, s)) == stopped(states) + if s == WorkerState::Terminated {
            1nat
        } else {
            0nat
        },
    decreases states.len(),
{
    let up = states.update(w, s);
    let last = states.len() - 1;
    if w == last {
        assert(up.drop_last() =~= states.drop_last());
    } else {
        assert(up.drop_last() =~= states.drop_last().update(w, s));
        lemma_stopped_update(states.drop_last(), w, s);
    }
}

proof fn lemma_stopped_counts_signals(queue: Seq<Message>, n: nat, schedule: Seq<nat>)
    requires
        feasible(queue, n, schedule),
    ensures
        states_after(queue, n, schedule).len() == n,
        stopped(states_after(queue, n, schedule)) == signals(queue.take(schedule.len() as int)),
    decreases schedule.len(),
{
    if schedule.len() == 0 {
        let start = Seq::new(n, |i: int| WorkerState::Running);
        assert(queue.take(0) =~= Seq::<Message>::empty());
        lemma_no_stopped(start);
    } else {
        let k = schedule.len() - 1;
        let prev_schedule = schedule.drop_last();
        lemma_stopped_counts_signals(queue, n, prev_schedule);
        let prev = states_after(queue, n, prev_schedule);
        let w = schedule[k] as int;
        lemma_stopped_update(prev, w, next_state(prev[w], queue[k]));
        assert(queue.take(k + 1).drop_last() =~= queue.take(k));
    }
}

proof fn lemma_no_stopped(states: Seq<WorkerState>)
    requires
        forall|i: int| 0 <= i < states.len() ==> #[trigger] states[i] == WorkerState::Running,
    ensures
        stopped(states) == 0,
    decreases states.len(),
{
    if states.len() > 0 {
        lemma_no_stopped(states.drop_last());
    }
}

proof fn lemma_signals_after_files(files: Seq<Message>, n: nat, k: int)
    requires
        all_files(files),
        0 <= k <= files.len() + n,
    ensures
        signals((files + terminates(n)).take(k)) == if k <= files.len() {
            0
        } else {
            k - files.len()
        },
    decreases k,
{
    let queue = files + terminates(n);
    if k == 0 {
        assert(queue.take(0) =~= Seq::<Message>::empty());
    } else {
        lemma_signals_after_files(files, n, k - 1);
        assert(queue.take(k).drop_last() =~= queue.take(k - 1));
        assert(queue.take(k).last() == queue[k - 1]);
        if k - 1 < files.len() {
            assert(queue[k - 1] == files[k - 1]);
        }
    }
}

/// A closed controller's queue holds its files and then one stop signal per
/// worker. Under every schedule of receives that can happen, all workers have
/// stopped exactly when every message sent has been received, each by one
/// worker, which covers every file; and while any message is left, some
/// worker is still running to take it.
pub proof fn lemma_shutdown_drains_queue(pool: ThreadPool, schedule: Seq<nat>)
    requires
        pool.wf(),
        !pool@.open,
        feasible(pool@.sent(), pool@.size, schedule),
    ensures
        pool@.sent().len() == pool@.files.len() + pool@.size,
        (forall|w: int|
            0 <= w < pool@.size ==> #[trigger] states_after(pool@.sent(), pool@.size, schedule)[w]
                == WorkerState::Terminated) <==> schedule.len() == pool@.sent().len(),
        schedule.len() < pool@.sent().len() ==> exists|w: int|
            0 <= w < pool@.size && #[trigger] states_after(pool@.sent(), pool@.size, schedule)[w]
                == WorkerState::Running,
{
    let queue = pool@.sent();
    let n = pool@.size;
    let states = states_after(queue, n, schedule);
    assert(schedule.len() <= queue.len());
    lemma_stopped_counts_signals(queue, n, schedule);
    lemma_signals_after_files(pool@.files, n, schedule.len() as int);
    lemma_stopped_bounds(states);
    if forall|w: int| 0 <= w < n ==> #[trigger] states[w] == WorkerState::Terminated {
        if stopped(states) < states.len() {
            let w = choose|w: int| 0 <= w < states.len() && #[trigger] states[w] == WorkerState::Running;
            assert(states[w] == WorkerState::Terminated);
        }
    }
}

} // verus!
