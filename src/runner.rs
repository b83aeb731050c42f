use vstd::prelude::*;

use crate::error::Error;
use crate::messages::{outcome_of, ResultMessage};
use crate::payload::Payload;
use crate::task::{read_signature, Signature, Task};

verus! {

/// A task invocation, ready to run, with its argument type erased.
pub trait TaskRunnerTrait {
    /// What running the task gives: the invocation id with the serialized
    /// return value, or the error.
    spec fn outcome(&self) -> Result<(Seq<char>, Seq<char>), Error>;

    /// Runs the task and gives its result, keyed by the invocation id.
    fn run_task(&self) -> (r: Result<ResultMessage, Error>)
        ensures
            outcome_of(r) == self.outcome(),
    ;
}

/// A task instance and the means to run it.
pub struct TaskRunner<T: Task> {
    pub task: T,
}

impl<T: Task> TaskRunner<T> {
    fn new(task: T) -> (r: Self)
        ensures
            r.task == task,
    {
        Self { task }
    }
}

/// What running task kind `T` on argument `arg` with invocation id `id` gives:
/// the id with the encoded return value, or a serialization error when the
/// return value cannot be encoded.
pub open spec fn run_outcome<T: Task>(arg: <T::ArgumentType as View>::V, id: Seq<char>) -> Result<
    (Seq<char>, Seq<char>),
    Error,
> {
    let v = T::result_of(arg);
    if T::ReturnType::encodes(v) {
        Ok((id, T::ReturnType::json(v)))
    } else {
        Err(Error::Serialization)
    }
}

/// What running the serialized signature `signature` as task kind `T` gives:
/// a serialization error when it does not read as a signature of `T`.
pub open spec fn kind_outcome<T: Task>(signature: Seq<char>) -> Result<
    (Seq<char>, Seq<char>),
    Error,
> {
    match read_signature(signature) {
        Some((a, i)) => match T::ArgumentType::read(a) {
            Some(arg) => run_outcome::<T>(arg, i),
            None => Err(Error::Serialization),
        },
        None => Err(Error::Serialization),
    }
}

impl<T: Task> TaskRunnerTrait for TaskRunner<T> {
    open spec fn outcome(&self) -> Result<(Seq<char>, Seq<char>), Error> {
        run_outcome::<T>(self.task.held_signature().arg@, self.task.held_signature().id@)
    }

    fn run_task(&self) -> (r: Result<ResultMessage, Error>) {
        let signature = self.task.signature();
        let result = T::run(&signature.arg);
        match result.to_json() {
            Some(text) => Ok(ResultMessage { result: text, signature_id: signature.id.clone() }),
            None => Err(Error::Serialization),
        }
    }
}

/// Reads a serialized signature of task kind `T` and makes the task that runs it.
pub fn build_task_runner<T: Task>(serialized_signature: &str) -> (r: Result<TaskRunner<T>, Error>)
    ensures
        r is Ok <==> (read_signature(serialized_signature@) matches Some((a, i))
            && T::ArgumentType::read(a) is Some),
        r is Err ==> r == Err::<TaskRunner<T>, Error>(Error::Serialization),
        r matches Ok(runner) ==> runner.outcome() == kind_outcome::<T>(serialized_signature@),
{
    let signature = Signature::<T>::from_serialized(serialized_signature)?;
    let task = T::from_signature(signature);
    Ok(TaskRunner::new(task))
}

} // verus!
