use vstd::prelude::*;

use core::marker::PhantomData;

use crate::error::Error;
use crate::messages::{outcome_of, ResultMessage};
use crate::runner::{build_task_runner, kind_outcome, TaskRunnerTrait};
use crate::task::Task;
use crate::text::same_text;

verus! {

/// The task kinds that an app can run, looked up by identifier.
///
/// A registry is built once, by registering kinds one after another, and is
/// read-only from then on. The kind registered last under an identifier is the
/// one that runs.
pub trait Registry {
    /// A kind is registered under `task_id`.
    spec fn knows(&self, task_id: Seq<char>) -> bool;

    /// What running `signature` as the kind registered under `task_id` gives:
    /// the invocation id with the serialized result, or the error.
    spec fn outcome(&self, task_id: Seq<char>, signature: Seq<char>) -> Result<
        (Seq<char>, Seq<char>),
        Error,
    >;

    /// Whether a kind is registered under `task_id`.
    fn contains(&self, task_id: &str) -> (r: bool)
        ensures
            r == self.knows(task_id@),
    ;

    /// Runs `signature` as the kind registered under `task_id`.
    fn run_signature(&self, task_id: &str, signature: &str) -> (r: Result<ResultMessage, Error>)
        ensures
            outcome_of(r) == self.outcome(task_id@, signature@),
            r == Err::<ResultMessage, Error>(Error::UnknownTask) <==> !self.knows(task_id@),
    ;
}

/// The registry with no kind in it.
pub struct NoTasks;

impl Registry for NoTasks {
    open spec fn knows(&self, task_id: Seq<char>) -> bool {
        false
    }

    open spec fn outcome(&self, task_id: Seq<char>, signature: Seq<char>) -> Result<
        (Seq<char>, Seq<char>),
        Error,
    > {
        Err(Error::UnknownTask)
    }

    fn contains(&self, task_id: &str) -> (r: bool) {
        false
    }

    fn run_signature(&self, task_id: &str, signature: &str) -> (r: Result<ResultMessage, Error>) {
        Err(Error::UnknownTask)
    }
}

/// The registry `rest` with task kind `T` registered on top of it.
pub struct WithTask<T: Task, R: Registry> {
    pub rest: R,
    pub kind: PhantomData<T>,
}

impl<T: Task, R: Registry> WithTask<T, R> {
    /// Registers `T` on top of `rest`.
    pub fn new(rest: R) -> (r: Self)
        ensures
            r.rest == rest,
    {
        WithTask { rest, kind: PhantomData }
    }
}

impl<T: Task, R: Registry> Registry for WithTask<T, R> {
    open spec fn knows(&self, task_id: Seq<char>) -> bool {
        task_id == T::ID@ || self.rest.knows(task_id)
    }

    open spec fn outcome(&self, task_id: Seq<char>, signature: Seq<char>) -> Result<
        (Seq<char>, Seq<char>),
        Error,
    > {
        if task_id == T::ID@ {
            kind_outcome::<T>(signature)
        } else {
            self.rest.outcome(task_id, signature)
        }
    }

    fn contains(&self, task_id: &str) -> (r: bool) {
        same_text(T::ID, task_id) || self.rest.contains(task_id)
    }

    fn run_signature(&self, task_id: &str, signature: &str) -> (r: Result<ResultMessage, Error>) {
        if same_text(T::ID, task_id) {
            match build_task_runner::<T>(signature) {
                Ok(runner) => runner.run_task(),
                Err(e) => Err(e),
            }
        } else {
            self.rest.run_signature(task_id, signature)
        }
    }
}

/// Registering the same kind twice runs every message as registering it once
/// does: the same identifiers are known, and each signature gives the same
/// outcome.
pub proof fn lemma_register_twice<T: Task, R: Registry>(
    once: WithTask<T, R>,
    twice: WithTask<T, WithTask<T, R>>,
    task_id: Seq<char>,
    signature: Seq<char>,
)
    requires
        twice.rest.rest == once.rest,
    ensures
        twice.knows(task_id) == once.knows(task_id),
        twice.outcome(task_id, signature) == once.outcome(task_id, signature),
{
}

/// Registering a kind again, on a registry where its identifier already runs
/// as that kind, with any kinds registered in between, leaves every outcome as
/// it was.
pub proof fn lemma_register_again<T: Task, R: Registry>(
    registry: R,
    again: WithTask<T, R>,
    task_id: Seq<char>,
    signature: Seq<char>,
)
    requires
        again.rest == registry,
        registry.knows(T::ID@),
        forall|s: Seq<char>| registry.outcome(T::ID@, s) == kind_outcome::<T>(s),
    ensures
        again.knows(task_id) == registry.knows(task_id),
        again.outcome(task_id, signature) == registry.outcome(task_id, signature),
{
}

} // verus!
