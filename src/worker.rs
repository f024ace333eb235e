//! The worker loop as a state machine: what a worker does with each message
//! it receives, and what it reports once a deletion has ended.
use vstd::prelude::*;
use crate::message::Message;
use crate::tally::{record_spec, Tally};

verus! {

/// The two states of a worker. `Terminated` is final.
#[derive(PartialEq, Eq, Structural, Clone, Copy, Debug)]
pub enum WorkerState {
    Running,
    Terminated,
}

/// The state a worker is in after receiving `m` in state `s`.
pub open spec fn next_state(s: WorkerState, m: Message) -> WorkerState {
    if m is Terminate {
        WorkerState::Terminated
    } else {
        s
    }
}

/// What a worker is to do after receiving a message.
pub enum Command {
    /// Remove this file from the file system.
    Delete(std::path::PathBuf),
    /// Leave the loop; the thread ends.
    Exit,
}

/// What a worker hands on once a deletion has ended.
pub enum Report {
    /// The file is gone: move the progress sink by `advance` and show `path`.
    Progressed { advance: u64, path: std::path::PathBuf },
    /// The file could not be removed: a diagnostic for the error channel.
    Failed { worker: usize, path: std::path::PathBuf },
}

/// One worker of the pool, identified by its index.
pub struct Worker {
    pub id: usize,
    pub state: WorkerState,
}

impl Worker {
    /// A worker with the given index, ready to receive.
    pub fn new(id: usize) -> (r: Worker)
        ensures
            r.id == id,
            r.state == WorkerState::Running,
    {
        Worker { id, state: WorkerState::Running }
    }

    /// Whether the worker still takes messages.
    pub fn is_running(&self) -> (r: bool)
        ensures
            r == (self.state == WorkerState::Running),
    {
        self.state == WorkerState::Running
    }

    /// Takes one message off the queue: a file becomes a deletion to perform,
    /// the stop signal ends the worker.
    pub fn receive(&mut self, message: Message) -> (r: Command)
        requires
            old(self).state == WorkerState::Running,
        ensures
            final(self).id == old(self).id,
            final(self).state == next_state(old(self).state, message),
            message is File ==> r == Command::Delete(message->File_0),
            message is Terminate ==> r is Exit,
    {
        match message {
            Message::File(path) => Command::Delete(path),
            Message::Terminate => {
                self.state = WorkerState::Terminated;
                Command::Exit
            },
        }
    }

    /// Records how the deletion of `path` ended in the shared tally and says
    /// what to report: progress on success, a diagnostic naming this worker
    /// on failure.
    pub fn finish(&self, tally: &mut Tally, path: std::path::PathBuf, deleted: bool) -> (r: Report)
        requires
            old(tally)@.deleted + old(tally)@.failed < u64::MAX,
        ensures
            final(tally)@ == record_spec(old(tally)@, deleted),
            deleted ==> r == (Report::Progressed { advance: 1, path }),
            !deleted ==> r == (Report::Failed { worker: self.id, path }),
    {
        let advance = tally.record(deleted);
        if deleted {
            Report::Progressed { advance, path }
        } else {
            Report::Failed { worker: self.id, path }
        }
    }
}

} // verus!
