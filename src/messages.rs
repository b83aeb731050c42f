use vstd::prelude::*;

verus! {

/// A queued task invocation: the task kind and its serialized signature.
///
/// The broker carries it as it is; only the registry reads it.
pub struct Message {
    pub task_id: String,
    pub signature: String,
}

impl View for Message {
    /// The task identifier and the signature text.
    type V = (Seq<char>, Seq<char>);

    open spec fn view(&self) -> (Seq<char>, Seq<char>) {
        (self.task_id@, self.signature@)
    }
}

impl Message {
    /// A copy of this message.
    pub fn duplicate(&self) -> (r: Message)
        ensures
            r@ == self@,
    {
        Message { task_id: self.task_id.clone(), signature: self.signature.clone() }
    }
}

/// The stored outcome of one invocation, keyed by its invocation id.
pub struct ResultMessage {
    pub signature_id: String,
    pub result: String,
}

impl View for ResultMessage {
    /// The invocation id and the serialized return value.
    type V = (Seq<char>, Seq<char>);

    open spec fn view(&self) -> (Seq<char>, Seq<char>) {
        (self.signature_id@, self.result@)
    }
}

impl ResultMessage {
    /// A copy of this result.
    pub fn duplicate(&self) -> (r: ResultMessage)
        ensures
            r@ == self@,
    {
        ResultMessage { signature_id: self.signature_id.clone(), result: self.result.clone() }
    }
}

/// The view of what running an invocation gave: its result or the error.
pub open spec fn outcome_of(r: Result<ResultMessage, crate::error::Error>) -> Result<
    (Seq<char>, Seq<char>),
    crate::error::Error,
> {
    match r {
        Ok(m) => Ok(m@),
        Err(e) => Err(e),
    }
}

/// An instruction addressed to one worker.
#[derive(Clone, Copy, Debug, PartialEq, Eq, Structural)]
pub enum Command {
    StopWorker,
}

} // verus!
