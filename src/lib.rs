//! A task queue: producers submit typed task invocations through a broker,
//! and workers take them off the queue, run them and store their results.
use vstd::prelude::*;

pub mod broker;
pub mod error;
pub mod escape;
pub mod ids;
pub mod memory;
pub mod messages;
pub mod payload;
pub mod registry;
pub mod runner;
pub mod table;
pub mod task;
pub mod text;
pub mod worker;

use crate::broker::{lists_register, Broker, WorkerInfo};
use crate::error::Error;
use crate::ids::{fresh_id, is_fresh_id};
use crate::messages::{Command, Message, ResultMessage};
use crate::payload::Payload;
use crate::registry::{NoTasks, Registry, WithTask};
use crate::task::{
    lemma_signature_round_trip, read_signature, signature_text,
    Signature, Task,
};

verus! {

/// The registry of task kinds together with the broker that carries their
/// invocations.
pub struct App<B: Broker, R: Registry> {
    pub registry: R,
    pub broker: B,
}

impl<B: Broker> App<B, NoTasks> {
    /// An app on `broker` with no task kind registered.
    pub fn new(broker: B) -> (r: Self)
        ensures
            r.broker == broker,
            forall|task_id: Seq<char>| !r.registry.knows(task_id),
    {
        App { registry: NoTasks, broker }
    }
}

impl<B: Broker, R: Registry> App<B, R> {
    /// Registers task kind `T`; it shadows a kind registered earlier under the same identifier.
    pub fn register_task<T: Task>(self) -> (r: App<B, WithTask<T, R>>)
        ensures
            r.broker == self.broker,
            r.registry.rest == self.registry,
    {
        App { registry: WithTask::new(self.registry), broker: self.broker }
    }

    /// Queues an invocation of `T` on `arg` and gives its invocation id, under
    /// which its result will be stored.
    ///
    /// Nothing is queued when `T` is not registered or `arg` cannot be encoded.
    pub fn queue_task<T: Task>(&mut self, arg: T::ArgumentType) -> (r: Result<String, Error>)
        ensures
            final(self).registry == old(self).registry,
            final(self).broker.infallible() == old(self).broker.infallible(),
            !old(self).registry.knows(T::ID@) ==> r == Err::<String, Error>(
                Error::UnregisteredTask,
            ),
            old(self).registry.knows(T::ID@) && !T::ArgumentType::encodes(arg@) ==> r == Err::<
                String,
                Error,
            >(Error::Serialization),
            old(self).registry.knows(T::ID@) && T::ArgumentType::encodes(arg@) ==> (r is Ok || (r
                == Err::<String, Error>(Error::Broker) && !old(self).broker.infallible())),
            r is Err ==> final(self).broker.model() == old(self).broker.model(),
            r matches Ok(id) ==> {
                &&& is_fresh_id(id@)
                &&& final(self).broker.model() == old(self).broker.model().with_task(
                    (T::ID@, signature_text(T::ArgumentType::json(arg@), id@)),
                )
                &&& read_signature(signature_text(T::ArgumentType::json(arg@), id@)) == Some(
                    (T::ArgumentType::json(arg@), id@),
                )
            },
    {
        if !self.registry.contains(T::ID) {
            return Err(Error::UnregisteredTask);
        }
        let signature_id = fresh_id();
        let signature = Signature::<T> { arg, id: signature_id };
        let text = match signature.to_serialized() {
            Some(text) => text,
            None => {
                return Err(Error::Serialization);
            },
        };
        let message = Message { task_id: T::ID.to_owned(), signature: text };
        self.broker.push_message(&message)?;
        proof {
            lemma_signature_round_trip(T::ArgumentType::json(signature.arg@), signature.id@);
        }
        Ok(signature.id)
    }

    /// The result stored for invocation `signature_id`, if any.
    pub fn get_task_result(&self, signature_id: &str) -> (r: Result<Option<ResultMessage>, Error>)
        ensures
            self.broker.infallible() ==> r is Ok,
            r matches Err(e) ==> e == Error::Broker,
            r matches Ok(Some(m)) ==> {
                &&& self.broker.model().results.contains_key(signature_id@)
                &&& m@ == (signature_id@, self.broker.model().results[signature_id@])
            },
            r matches Ok(None) ==> !self.broker.model().results.contains_key(signature_id@),
    {
        self.broker.get_result(signature_id)
    }

    /// Sends `command` to worker `worker_id`.
    pub fn queue_command(&mut self, command: &Command, worker_id: &str) -> (r: Result<(), Error>)
        ensures
            old(self).broker.infallible() ==> r is Ok,
            final(self).broker.infallible() == old(self).broker.infallible(),
            r matches Err(e) ==> e == Error::Broker,
            final(self).registry == old(self).registry,
            r is Ok ==> final(self).broker.model() == old(self).broker.model().with_command(
                worker_id@,
                *command,
            ),
            r is Err ==> final(self).broker.model() == old(self).broker.model(),
    {
        self.broker.push_command(command, worker_id)
    }

    /// The register entry of worker `worker_id`, if any.
    pub fn get_worker_info(&self, worker_id: &str) -> (r: Result<Option<WorkerInfo>, Error>)
        ensures
            self.broker.infallible() ==> r is Ok,
            r matches Err(e) ==> e == Error::Broker,
            r matches Ok(Some(info)) ==> {
                &&& self.broker.model().workers.contains_key(worker_id@)
                &&& info@ == (worker_id@, self.broker.model().workers[worker_id@])
            },
            r matches Ok(None) ==> !self.broker.model().workers.contains_key(worker_id@),
    {
        self.broker.get_worker_info(worker_id)
    }

    /// Every entry of the worker register.
    pub fn list_workers(&self) -> (r: Result<Option<Vec<WorkerInfo>>, Error>)
        ensures
            self.broker.infallible() ==> r is Ok,
            r matches Err(e) ==> e == Error::Broker,
            r matches Ok(Some(v)) ==> lists_register(v@, self.broker.model().workers),
            r matches Ok(None) ==> self.broker.model().workers.is_empty(),
    {
        self.broker.all_workers()
    }

    /// Runs the invocation that `message` carries and stores its result.
    ///
    /// A message for an unknown kind is refused and nothing runs; a result is
    /// stored only when the task ran to completion.
    pub fn handle_message(&mut self, message: &Message) -> (r: Result<(), Error>)
        ensures
            final(self).registry == old(self).registry,
            final(self).broker.infallible() == old(self).broker.infallible(),
            match old(self).registry.outcome(message.task_id@, message.signature@) {
                Ok(res) => {
                    ||| r is Ok && final(self).broker.model() == old(self).broker.model().with_result(res.0, res.1)
                    ||| r == Err::<(), Error>(Error::Broker) && !old(self).broker.infallible()
                        && final(self).broker.model() == old(self).broker.model()
                },
                Err(e) => r == Err::<(), Error>(e) && final(self).broker.model() == old(self).broker.model(),
            },
            r == Err::<(), Error>(Error::UnknownTask) <==> !old(self).registry.knows(
                message.task_id@,
            ),
    {
        let result = self.registry.run_signature(
            message.task_id.as_str(),
            message.signature.as_str(),
        )?;
        self.store_task_result(result)?;
        Ok(())
    }

    pub(crate) fn store_task_result(&mut self, result: ResultMessage) -> (r: Result<(), Error>)
        ensures
            old(self).broker.infallible() ==> r is Ok,
            final(self).broker.infallible() == old(self).broker.infallible(),
            r matches Err(e) ==> e == Error::Broker,
            final(self).registry == old(self).registry,
            r is Ok ==> final(self).broker.model() == old(self).broker.model().with_result(
                result.signature_id@,
                result.result@,
            ),
            r is Err ==> final(self).broker.model() == old(self).broker.model(),
    {
        self.broker.store_result(result)
    }

    pub(crate) fn update_worker_info(&mut self, info: WorkerInfo) -> (r: Result<(), Error>)
        ensures
            old(self).broker.infallible() ==> r is Ok,
            final(self).broker.infallible() == old(self).broker.infallible(),
            r matches Err(e) ==> e == Error::Broker,
            final(self).registry == old(self).registry,
            r is Ok ==> final(self).broker.model() == old(self).broker.model().with_worker(
                info.id@,
                info.state,
            ),
            r is Err ==> final(self).broker.model() == old(self).broker.model(),
    {
        self.broker.update_worker_info(info)
    }

    pub(crate) fn remove_worker_info(&mut self, worker_id: &str) -> (r: Result<(), Error>)
        ensures
            old(self).broker.infallible() ==> r is Ok,
            final(self).broker.infallible() == old(self).broker.infallible(),
            r matches Err(e) ==> e == Error::Broker,
            final(self).registry == old(self).registry,
            r is Ok ==> final(self).broker.model() == old(self).broker.model().without_worker(
                worker_id@,
            ),
            r is Err ==> final(self).broker.model() == old(self).broker.model(),
    {
        self.broker.remove_worker_info(worker_id)
    }
}

} // verus!
