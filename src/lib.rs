//! Verified core of a parallel file remover: the message model of the task
//! queue, the worker state machine, the shared deletion tally and the
//! lifecycle of the pool controller.
//!
//! Threads, the channel and the file system itself are driven by the
//! surrounding program; this library decides what each of them does next.
use vstd::prelude::*;

pub mod delivery;
pub mod message;
pub mod pool;
pub mod tally;
pub mod worker;

pub use message::Message;
pub use pool::{worker_count, PoolError, PoolView, ThreadPool};
pub use tally::{Tally, TallyView};
pub use worker::{Command, Report, Worker, WorkerState};
