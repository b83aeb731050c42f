use vstd::prelude::*;

use crate::error::Error;
use crate::messages::{Command, Message, ResultMessage};

verus! {

/// Where a worker is in its life.
#[derive(Clone, Copy, Debug, PartialEq, Eq, Structural)]
pub enum WorkerState {
    /// Registered, not polling yet.
    Pending,
    /// Polling the queues.
    Running,
    /// Done polling; this state is final.
    Stopped,
}

impl View for WorkerState {
    type V = WorkerState;

    open spec fn view(&self) -> WorkerState {
        *self
    }
}

/// The entry that a worker keeps in the worker register.
pub struct WorkerInfo {
    pub state: WorkerState,
    pub id: String,
}

impl View for WorkerInfo {
    /// The worker id and its state.
    type V = (Seq<char>, WorkerState);

    open spec fn view(&self) -> (Seq<char>, WorkerState) {
        (self.id@, self.state)
    }
}

/// What a broker holds, as values.
pub struct BrokerModel {
    /// The shared task queue, oldest message first.
    pub tasks: Seq<(Seq<char>, Seq<char>)>,
    /// The command queue of each worker id, oldest command first.
    pub commands: Map<Seq<char>, Seq<Command>>,
    /// The serialized result stored for each invocation id.
    pub results: Map<Seq<char>, Seq<char>>,
    /// The worker register: the state of each worker id.
    pub workers: Map<Seq<char>, WorkerState>,
}

impl BrokerModel {
    /// The commands waiting for `worker`; a worker that never got one has none.
    pub open spec fn commands_for(self, worker: Seq<char>) -> Seq<Command> {
        if self.commands.contains_key(worker) {
            self.commands[worker]
        } else {
            Seq::empty()
        }
    }

    pub open spec fn with_task(self, message: (Seq<char>, Seq<char>)) -> BrokerModel {
        BrokerModel { tasks: self.tasks.push(message), ..self }
    }

    pub open spec fn without_first_task(self) -> BrokerModel {
        BrokerModel { tasks: self.tasks.drop_first(), ..self }
    }

    pub open spec fn with_command(self, worker: Seq<char>, command: Command) -> BrokerModel {
        BrokerModel {
            commands: self.commands.insert(worker, self.commands_for(worker).push(command)),
            ..self
        }
    }

    pub open spec fn without_first_command(self, worker: Seq<char>) -> BrokerModel {
        BrokerModel {
            commands: self.commands.insert(worker, self.commands_for(worker).drop_first()),
            ..self
        }
    }

    pub open spec fn with_result(self, id: Seq<char>, result: Seq<char>) -> BrokerModel {
        BrokerModel { results: self.results.insert(id, result), ..self }
    }

    pub open spec fn with_worker(self, id: Seq<char>, state: WorkerState) -> BrokerModel {
        BrokerModel { workers: self.workers.insert(id, state), ..self }
    }

    pub open spec fn without_worker(self, id: Seq<char>) -> BrokerModel {
        BrokerModel { workers: self.workers.remove(id), ..self }
    }
}

/// `info` agrees with the worker register `workers`.
pub open spec fn registered(workers: Map<Seq<char>, WorkerState>, info: WorkerInfo) -> bool {
    workers.contains_key(info.id@) && workers[info.id@] == info.state
}

/// `entries` lists the worker register `workers`: each entry is in it, no id
/// is listed twice, and each worker id in it has an entry.
pub open spec fn lists_register(
    entries: Seq<WorkerInfo>,
    workers: Map<Seq<char>, WorkerState>,
) -> bool {
    &&& forall|i: int| 0 <= i < entries.len() ==> registered(workers, #[trigger] entries[i])
    &&& forall|i: int, j: int|
        0 <= i < j < entries.len() ==> #[trigger] entries[i].id@ != #[trigger] entries[j].id@
    &&& forall|id: Seq<char>|
        #[trigger] workers.contains_key(id) ==> exists|i: int|
            #![trigger entries[i]]
            0 <= i < entries.len() && entries[i].id@ == id
}

/// Storage for the task queue, the command queues, the results and the
/// worker register.
///
/// Reads never wait: an empty queue or a missing key is reported as `None`.
/// An operation that fails reports `Error::Broker` and leaves the storage as it
/// was.
pub trait Broker {
    /// The contents of the storage.
    ///
    /// A verified implementation defines it; otherwise it is left unspecified.
    open spec fn model(&self) -> BrokerModel {
        arbitrary()
    }

    /// The broker's operations cannot fail.
    ///
    /// A verified implementation may say so; otherwise nothing is promised.
    open spec fn infallible(&self) -> bool {
        false
    }

    /// Appends `message` to the task queue.
    fn push_message(&mut self, message: &Message) -> (r: Result<(), Error>)
        ensures
            old(self).infallible() ==> r is Ok,
            final(self).infallible() == old(self).infallible(),
            r matches Err(e) ==> e == Error::Broker,
            r is Ok ==> final(self).model() == old(self).model().with_task(message@),
            r is Err ==> final(self).model() == old(self).model(),
    ;

    /// Takes the oldest message off the task queue.
    fn pop_message(&mut self) -> (r: Result<Option<Message>, Error>)
        ensures
            old(self).infallible() ==> r is Ok,
            final(self).infallible() == old(self).infallible(),
            r matches Err(e) ==> e == Error::Broker,
            match r {
                Ok(Some(m)) => {
                    &&& old(self).model().tasks.len() > 0
                    &&& m@ == old(self).model().tasks[0]
                    &&& final(self).model() == old(self).model().without_first_task()
                },
                Ok(None) => {
                    &&& old(self).model().tasks.len() == 0
                    &&& final(self).model() == old(self).model()
                },
                Err(_) => final(self).model() == old(self).model(),
            },
    ;

    /// Appends `command` to the command queue of `worker_id`.
    fn push_command(&mut self, command: &Command, worker_id: &str) -> (r: Result<(), Error>)
        ensures
            old(self).infallible() ==> r is Ok,
            final(self).infallible() == old(self).infallible(),
            r matches Err(e) ==> e == Error::Broker,
            r is Ok ==> final(self).model() == old(self).model().with_command(
                worker_id@,
                *command,
            ),
            r is Err ==> final(self).model() == old(self).model(),
    ;

    /// Takes the oldest command off the command queue of `worker_id`.
    fn pop_command(&mut self, worker_id: &str) -> (r: Result<Option<Command>, Error>)
        ensures
            old(self).infallible() ==> r is Ok,
            final(self).infallible() == old(self).infallible(),
            r matches Err(e) ==> e == Error::Broker,
            match r {
                Ok(Some(c)) => {
                    &&& old(self).model().commands_for(worker_id@).len() > 0
                    &&& c == old(self).model().commands_for(worker_id@)[0]
                    &&& final(self).model() == old(self).model().without_first_command(
                        worker_id@,
                    )
                },
                Ok(None) => {
                    &&& old(self).model().commands_for(worker_id@).len() == 0
                    &&& final(self).model() == old(self).model()
                },
                Err(_) => final(self).model() == old(self).model(),
            },
    ;

    /// Stores `result_message` under its invocation id, replacing what was there.
    fn store_result(&mut self, result_message: ResultMessage) -> (r: Result<(), Error>)
        ensures
            old(self).infallible() ==> r is Ok,
            final(self).infallible() == old(self).infallible(),
            r matches Err(e) ==> e == Error::Broker,
            r is Ok ==> final(self).model() == old(self).model().with_result(
                result_message.signature_id@,
                result_message.result@,
            ),
            r is Err ==> final(self).model() == old(self).model(),
    ;

    /// The result stored under `signature_id`, if any.
    fn get_result(&self, signature_id: &str) -> (r: Result<Option<ResultMessage>, Error>)
        ensures
            self.infallible() ==> r is Ok,
            r matches Err(e) ==> e == Error::Broker,
            r matches Ok(Some(m)) ==> {
                &&& self.model().results.contains_key(signature_id@)
                &&& m@ == (signature_id@, self.model().results[signature_id@])
            },
            r matches Ok(None) ==> !self.model().results.contains_key(signature_id@),
    ;

    /// Sets the register entry of `info.id` to `info.state`.
    fn update_worker_info(&mut self, info: WorkerInfo) -> (r: Result<(), Error>)
        ensures
            old(self).infallible() ==> r is Ok,
            final(self).infallible() == old(self).infallible(),
            r matches Err(e) ==> e == Error::Broker,
            r is Ok ==> final(self).model() == old(self).model().with_worker(info.id@, info.state),
            r is Err ==> final(self).model() == old(self).model(),
    ;

    /// Removes the register entry of `worker_id`, if there is one.
    fn remove_worker_info(&mut self, worker_id: &str) -> (r: Result<(), Error>)
        ensures
            old(self).infallible() ==> r is Ok,
            final(self).infallible() == old(self).infallible(),
            r matches Err(e) ==> e == Error::Broker,
            r is Ok ==> final(self).model() == old(self).model().without_worker(worker_id@),
            r is Err ==> final(self).model() == old(self).model(),
    ;

    /// The register entry of `worker_id`, if any.
    fn get_worker_info(&self, worker_id: &str) -> (r: Result<Option<WorkerInfo>, Error>)
        ensures
            self.infallible() ==> r is Ok,
            r matches Err(e) ==> e == Error::Broker,
            r matches Ok(Some(info)) ==> {
                &&& self.model().workers.contains_key(worker_id@)
                &&& info@ == (worker_id@, self.model().workers[worker_id@])
            },
            r matches Ok(None) ==> !self.model().workers.contains_key(worker_id@),
    ;

    /// Every entry of the worker register, in no particular order.
    fn all_workers(&self) -> (r: Result<Option<Vec<WorkerInfo>>, Error>)
        ensures
            self.infallible() ==> r is Ok,
            r matches Err(e) ==> e == Error::Broker,
            r matches Ok(Some(v)) ==> lists_register(v@, self.model().workers),
            r matches Ok(None) ==> self.model().workers.is_empty(),
    ;
}

} // verus!
