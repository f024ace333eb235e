//! The lifecycle of the pool controller: construction with a fixed number of
//! workers, submission while open, and the shutdown that stops every worker.
use vstd::prelude::*;
use crate::message::Message;
use crate::worker::{Worker, WorkerState};

verus! {

/// Why the controller refused a request.
#[derive(PartialEq, Eq, Structural, Clone, Copy, Debug)]
pub enum PoolError {
    /// A pool needs at least one worker, or nothing would drain its queue.
    NoWorkers,
    /// Shutdown has begun: nothing more can be sent.
    Closed,
    /// The stop signal is sent by shutdown alone, one per worker.
    ControlMessage,
}

/// `n` stop signals: what shutdown puts on the queue.
pub open spec fn terminates(n: nat) -> Seq<Message> {
    Seq::new(n, |i: int| Message::Terminate)
}

/// Whether every message of `s` is a file to delete.
pub open spec fn all_files(s: Seq<Message>) -> bool {
    forall|i: int| 0 <= i < s.len() ==> (#[trigger] s[i]) is File
}

/// The controller as its contracts see it.
pub struct PoolView {
    /// The fixed number of workers.
    pub size: nat,
    /// Whether submissions are still taken.
    pub open: bool,
    /// The files submitted so far, in order.
    pub files: Seq<Message>,
}

impl PoolView {
    /// Everything the controller has put on the queue, in order: the files,
    /// then, once shut down, one stop signal per worker.
    pub open spec fn sent(self) -> Seq<Message> {
        if self.open {
            self.files
        } else {
            self.files + terminates(self.size)
        }
    }
}

/// The pool controller: it decides what goes on the task queue, the files
/// while it is open and then one stop signal per worker.
pub struct ThreadPool {
    size: usize,
    open: bool,
    files: Ghost<Seq<Message>>,
}

impl View for ThreadPool {
    type V = PoolView;

    closed spec fn view(&self) -> PoolView {
        PoolView { size: self.size as nat, open: self.open, files: self.files@ }
    }
}

impl ThreadPool {
    /// A valid controller has workers and has only sent files while open.
    pub open spec fn wf(&self) -> bool {
        self@.size >= 1 && all_files(self@.files)
    }

    /// Creates the controller of a pool of `size` workers; a pool without
    /// workers is refused.
    pub fn new(size: usize) -> (r: Result<ThreadPool, PoolError>)
        ensures
            size == 0 ==> r == Err::<ThreadPool, PoolError>(PoolError::NoWorkers),
            size > 0 ==> r is Ok && r->Ok_0.wf() && r->Ok_0@ == (PoolView {
                size: size as nat,
                open: true,
                files: Seq::empty(),
            }),
    {
        if size == 0 {
            Err(PoolError::NoWorkers)
        } else {
            Ok(ThreadPool { size, open: true, files: Ghost(Seq::empty()) })
        }
    }

    /// The number of workers.
    pub fn size(&self) -> (r: usize)
        ensures
            r == self@.size,
    {
        self.size
    }

    /// Whether submissions are still taken.
    pub fn is_open(&self) -> (r: bool)
        ensures
            r == self@.open,
    {
        self.open
    }

    /// The workers to start, one per index below `size`, all running.
    pub fn workers(&self) -> (r: Vec<Worker>)
        ensures
            r.len() == self@.size,
            forall|i: int|
                0 <= i < r.len() ==> (#[trigger] r[i]).id == i && r[i].state
                    == WorkerState::Running,
    {
        let mut r: Vec<Worker> = Vec::new();
        let mut i: usize = 0;
        while i < self.size
            invariant
                i <= self.size,
                r.len() == i,
                forall|j: int|
                    0 <= j < r.len() ==> (#[trigger] r[j]).id == j && r[j].state
                        == WorkerState::Running,
            decreases self.size - i,
        {
            r.push(Worker::new(i));
            i = i + 1;
        }
        r
    }

    /// Admits one message for the queue. Only files are taken, and only
    /// before shutdown.
    pub fn execute(&mut self, message: &Message) -> (r: Result<(), PoolError>)
        requires
            old(self).wf(),
        ensures
            final(self).wf(),
            !old(self)@.open ==> r == Err::<(), PoolError>(PoolError::Closed),
            old(self)@.open && message is Terminate ==> r == Err::<(), PoolError>(
                PoolError::ControlMessage,
            ),
            old(self)@.open && message is File ==> r is Ok,
            r is Ok ==> final(self)@ == (PoolView {
                files: old(self)@.files.push(*message),
                ..old(self)@
            }),
            r is Err ==> final(self)@ == old(self)@,
    {
        if !self.open {
            return Err(PoolError::Closed);
        }
        if message.is_terminate() {
            return Err(PoolError::ControlMessage);
        }
        self.files = Ghost(self.files@.push(*message));
        Ok(())
    }

    /// Begins shutdown: closes the controller and returns the stop signals to
    /// send, exactly one per worker. A second shutdown is refused.
    pub fn shutdown(&mut self) -> (r: Result<Vec<Message>, PoolError>)
        requires
            old(self).wf(),
        ensures
            final(self).wf(),
            !old(self)@.open ==> r == Err::<Vec<Message>, PoolError>(PoolError::Closed)
                && final(self)@ == old(self)@,
            old(self)@.open ==> r is Ok && r->Ok_0@ == terminates(old(self)@.size) && final(self)@ == (PoolView {
                open: false,
                ..old(self)@
            }),
    {
        if !self.open {
            return Err(PoolError::Closed);
        }
        let mut signals: Vec<Message> = Vec::new();
        let mut i: usize = 0;
        while i < self.size
            invariant
                i <= self.size,
                signals@ == terminates(i as nat),
            decreases self.size - i,
        {
            signals.push(Message::Terminate);
            i = i + 1;
            assert(signals@ =~= terminates(i as nat));
        }
        self.open = false;
        Ok(signals)
    }
}

/// Relies on num_cpus::get: the number of CPUs available to this process,
/// which its documentation promises is at least one.
#[verifier::external_body]
fn available_cpus() -> (r: usize)
    ensures
        r >= 1,
{
    num_cpus::get()
}

/// The number of workers to run: the one asked for, or else one per CPU
/// available.
pub fn worker_count(requested: Option<usize>) -> (r: usize)
    ensures
        requested is Some ==> r == requested->Some_0,
        requested is None ==> r >= 1,
{
    match requested {
        Some(n) => n,
        None => available_cpus(),
    }
}

} // verus!
