//! Messages carried by the task queue.
use vstd::prelude::*;

verus! {

/// std::path::PathBuf, declared opaque: a message carries the path of the
/// file to delete through the library without reading it.
#[verifier::external_type_specification]
#[verifier::external_body]
pub struct ExPathBuf(std::path::PathBuf);

/// A message for the workers: a file to delete, or the signal to stop.
pub enum Message {
    File(std::path::PathBuf),
    Terminate,
}

impl Message {
    /// Whether this is the stop signal.
    pub fn is_terminate(&self) -> (r: bool)
        ensures
            r == (*self is Terminate),
    {
        match self {
            Message::File(_) => false,
            Message::Terminate => true,
        }
    }
}

} // verus!
