use vstd::prelude::*;

verus! {

/// What can go wrong in the task queue.
#[derive(Clone, Copy, Debug, PartialEq, Eq, Structural)]
pub enum Error {
    /// The broker could not be reached or could not carry out an operation.
    Broker,
    /// A task was submitted for a kind that is not registered.
    UnregisteredTask,
    /// A message names a task kind that is not registered.
    UnknownTask,
    /// A payload does not have the shape that its task kind expects.
    Serialization,
    /// The task queue held no message.
    EmptyQueue,
}

} // verus!
