use vstd::prelude::*;

use core::marker::PhantomData;

use crate::broker::{Broker, BrokerModel, WorkerInfo, WorkerState};
use crate::error::Error;
use crate::ids::{fresh_id, is_fresh_id};
use crate::messages::Command;
use crate::registry::Registry;
use crate::App;

verus! {

/// What one turn of a worker's loop did.
#[derive(Clone, Copy, Debug, PartialEq, Eq, Structural)]
pub enum Poll {
    /// A stop command was taken: the loop ends.
    Stop,
    /// Both queues were empty: the loop waits before the next turn.
    Idle,
    /// A task was taken off the queue, run, and its result stored.
    Dispatched,
}

/// What the next turn of `worker`'s loop does on storage `m`: a waiting
/// command comes before any task.
pub open spec fn next_turn(m: BrokerModel, worker: Seq<char>) -> Poll {
    if m.commands_for(worker).len() > 0 {
        Poll::Stop
    } else if m.tasks.len() > 0 {
        Poll::Dispatched
    } else {
        Poll::Idle
    }
}

/// `after` is `before` with its oldest task message taken off the queue, run by
/// `registry`, and the result stored.
pub open spec fn ran_first_task<R: Registry>(
    registry: R,
    before: BrokerModel,
    after: BrokerModel,
) -> bool {
    &&& before.tasks.len() > 0
    &&& registry.outcome(before.tasks[0].0, before.tasks[0].1) matches Ok(res)
    &&& after == before.without_first_task().with_result(res.0, res.1)
}

/// Each storage of `chain` is the one before it with the oldest task message
/// taken off the queue, run by `registry`, and the result stored.
pub open spec fn ran_chain<R: Registry>(registry: R, chain: Seq<BrokerModel>) -> bool {
    &&& chain.len() > 0
    &&& forall|i: int|
        0 <= i < chain.len() - 1 ==> ran_first_task(registry, #[trigger] chain[i], chain[i + 1])
}

/// `after` is `before` with some of its oldest task messages taken off the
/// queue one after another, each run by `registry` and its result stored.
pub open spec fn ran_tasks<R: Registry>(
    registry: R,
    before: BrokerModel,
    after: BrokerModel,
) -> bool {
    exists|chain: Seq<BrokerModel>|
        #![trigger ran_chain(registry, chain)]
        ran_chain(registry, chain) && chain[0] == before && chain.last() == after
}

/// Taking the oldest task message of `before` and running it failed with `e`:
/// the message is gone, and either running it gave `e`, or it ran and storing
/// its result failed on a broker that may fail.
pub open spec fn failed_dispatch<R: Registry>(
    registry: R,
    may_fail: bool,
    before: BrokerModel,
    after: BrokerModel,
    e: Error,
) -> bool {
    &&& before.tasks.len() > 0
    &&& after == before.without_first_task()
    &&& {
        ||| registry.outcome(before.tasks[0].0, before.tasks[0].1) == Err::<
            (Seq<char>, Seq<char>),
            Error,
        >(e)
        ||| registry.outcome(before.tasks[0].0, before.tasks[0].1) is Ok && e == Error::Broker
            && may_fail
    }
}

/// A stop command sent to a worker is obeyed before the worker takes another
/// task, whether the task was queued before the command or after it.
pub proof fn lemma_stop_comes_first(
    m: BrokerModel,
    worker: Seq<char>,
    message: (Seq<char>, Seq<char>),
)
    ensures
        next_turn(m.with_task(message).with_command(worker, Command::StopWorker), worker)
            == Poll::Stop,
        next_turn(m.with_command(worker, Command::StopWorker).with_task(message), worker)
            == Poll::Stop,
{
    let a = m.with_task(message).with_command(worker, Command::StopWorker);
    let b = m.with_command(worker, Command::StopWorker);
    assert(a.commands_for(worker).len() > 0);
    assert(b.commands_for(worker).len() > 0);
    assert(b.with_task(message).commands_for(worker) == b.commands_for(worker));
}

/// An agent that takes task messages off the queue and runs them, known in the
/// worker register under its id.
///
/// A worker serves apps with the registry type `R` it was made for: registering
/// another kind makes an app of another type, which the worker cannot serve, so
/// the registry is frozen for as long as the worker works.
pub struct Worker<R: Registry> {
    pub id: String,
    pub registry: PhantomData<R>,
}

impl<R: Registry> Worker<R> {
    /// Makes a worker with a fresh id and enters it in the register as pending.
    pub fn new<B: Broker>(app: &mut App<B, R>) -> (r: Result<Worker<R>, Error>)
        ensures
            final(app).registry == old(app).registry,
            final(app).broker.infallible() == old(app).broker.infallible(),
            old(app).broker.infallible() ==> r is Ok,
            r matches Err(e) ==> e == Error::Broker,
            r matches Ok(w) ==> {
                &&& is_fresh_id(w.id@)
                &&& final(app).broker.model() == old(app).broker.model().with_worker(
                    w.id@,
                    WorkerState::Pending,
                )
            },
            r is Err ==> final(app).broker.model() == old(app).broker.model(),
    {
        let id = fresh_id();
        app.update_worker_info(WorkerInfo { state: WorkerState::Pending, id: id.clone() })?;
        Ok(Worker { id, registry: PhantomData })
    }

    fn publish<B: Broker>(&self, app: &mut App<B, R>, state: WorkerState) -> (r: Result<(), Error>)
        ensures
            final(app).registry == old(app).registry,
            final(app).broker.infallible() == old(app).broker.infallible(),
            old(app).broker.infallible() ==> r is Ok,
            r matches Err(e) ==> e == Error::Broker,
            r is Ok ==> final(app).broker.model() == old(app).broker.model().with_worker(
                self.id@,
                state,
            ),
            r is Err ==> final(app).broker.model() == old(app).broker.model(),
    {
        app.update_worker_info(WorkerInfo { state, id: self.id.clone() })
    }

    /// Marks this worker as running; its loop begins.
    pub fn start<B: Broker>(&self, app: &mut App<B, R>) -> (r: Result<(), Error>)
        ensures
            final(app).registry == old(app).registry,
            final(app).broker.infallible() == old(app).broker.infallible(),
            old(app).broker.infallible() ==> r is Ok,
            r matches Err(e) ==> e == Error::Broker,
            r is Ok ==> final(app).broker.model() == old(app).broker.model().with_worker(
                self.id@,
                WorkerState::Running,
            ),
            r is Err ==> final(app).broker.model() == old(app).broker.model(),
    {
        self.publish(app, WorkerState::Running)
    }

    /// Marks this worker as stopped; its loop has ended.
    pub fn stop<B: Broker>(&self, app: &mut App<B, R>) -> (r: Result<(), Error>)
        ensures
            final(app).registry == old(app).registry,
            final(app).broker.infallible() == old(app).broker.infallible(),
            old(app).broker.infallible() ==> r is Ok,
            r matches Err(e) ==> e == Error::Broker,
            r is Ok ==> final(app).broker.model() == old(app).broker.model().with_worker(
                self.id@,
                WorkerState::Stopped,
            ),
            r is Err ==> final(app).broker.model() == old(app).broker.model(),
    {
        self.publish(app, WorkerState::Stopped)
    }

    /// Takes the oldest task message off the queue, if there is one, and runs it.
    fn run_first_task<B: Broker>(&self, app: &mut App<B, R>) -> (r: Result<bool, Error>)
        ensures
            final(app).registry == old(app).registry,
            final(app).broker.infallible() == old(app).broker.infallible(),
            r == Ok::<bool, Error>(false) ==> old(app).broker.model().tasks.len() == 0
                && final(app).broker.model() == old(app).broker.model(),
            r == Ok::<bool, Error>(true) ==> ran_first_task(
                old(app).registry,
                old(app).broker.model(),
                final(app).broker.model(),
            ),
            r matches Err(e) ==> {
                ||| e == Error::Broker && !old(app).broker.infallible() && final(app).broker.model() == old(app).broker.model()
                ||| failed_dispatch(
                    old(app).registry,
                    !old(app).broker.infallible(),
                    old(app).broker.model(),
                    final(app).broker.model(),
                    e,
                )
            },
            old(app).broker.infallible() && old(app).broker.model().tasks.len() == 0 ==> r
                == Ok::<bool, Error>(false),
            old(app).broker.infallible() && old(app).broker.model().tasks.len() > 0 ==> (r
                is Ok <==> old(app).registry.outcome(
                old(app).broker.model().tasks[0].0,
                old(app).broker.model().tasks[0].1,
            ) is Ok),
    {
        let ghost before = app.broker.model();
        match app.broker.pop_message()? {
            None => Ok(false),
            Some(message) => {
                assert(message@ == before.tasks[0]);
                app.handle_message(&message)?;
                Ok(true)
            },
        }
    }

    /// One turn of the loop: takes a waiting command first, and only when there
    /// is none takes a task message and runs it.
    ///
    /// Neither queue is waited on. On an error the turn ends there; a message
    /// already taken off the queue is then lost.
    pub fn poll<B: Broker>(&self, app: &mut App<B, R>) -> (r: Result<Poll, Error>)
        ensures
            final(app).registry == old(app).registry,
            final(app).broker.infallible() == old(app).broker.infallible(),
            r matches Ok(p) ==> p == next_turn(old(app).broker.model(), self.id@),
            r matches Ok(Poll::Stop) ==> final(app).broker.model() == old(app).broker.model().without_first_command(self.id@),
            r matches Ok(Poll::Idle) ==> final(app).broker.model() == old(app).broker.model(),
            r matches Ok(Poll::Dispatched) ==> ran_first_task(
                old(app).registry,
                old(app).broker.model(),
                final(app).broker.model(),
            ),
            r matches Err(e) ==> {
                ||| e == Error::Broker && !old(app).broker.infallible() && final(app).broker.model() == old(app).broker.model()
                ||| next_turn(old(app).broker.model(), self.id@) == Poll::Dispatched
                    && failed_dispatch(
                    old(app).registry,
                    !old(app).broker.infallible(),
                    old(app).broker.model(),
                    final(app).broker.model(),
                    e,
                )
            },
            old(app).broker.infallible() && (next_turn(old(app).broker.model(), self.id@)
                != Poll::Dispatched || old(app).registry.outcome(
                old(app).broker.model().tasks[0].0,
                old(app).broker.model().tasks[0].1,
            ) is Ok) ==> r is Ok,
    {
        match app.broker.pop_command(self.id.as_str())? {
            Some(Command::StopWorker) => {
                return Ok(Poll::Stop);
            },
            None => {},
        }
        if self.run_first_task(app)? {
            Ok(Poll::Dispatched)
        } else {
            Ok(Poll::Idle)
        }
    }

    /// Runs turns until one does not dispatch a task: gives `Stop` when a stop
    /// command came, `Idle` when the task queue ran empty.
    ///
    /// Running a task never sends a command, so a stop can only be taken on the
    /// first turn.
    pub fn run_until_idle<B: Broker>(&self, app: &mut App<B, R>) -> (r: Result<Poll, Error>)
        ensures
            final(app).registry == old(app).registry,
            final(app).broker.infallible() == old(app).broker.infallible(),
            r matches Ok(p) ==> p != Poll::Dispatched,
            r matches Ok(Poll::Stop) ==> {
                &&& old(app).broker.model().commands_for(self.id@).len() > 0
                &&& final(app).broker.model() == old(app).broker.model().without_first_command(
                    self.id@,
                )
            },
            old(app).broker.model().commands_for(self.id@).len() > 0 ==> r == Ok::<Poll, Error>(
                Poll::Stop,
            ) || (r == Err::<Poll, Error>(Error::Broker) && !old(app).broker.infallible()
                && final(app).broker.model() == old(app).broker.model()),
            r matches Ok(Poll::Idle) ==> {
                &&& ran_tasks(old(app).registry, old(app).broker.model(), final(app).broker.model())
                &&& final(app).broker.model().tasks.len() == 0
                &&& final(app).broker.model().commands_for(self.id@).len() == 0
            },
            r matches Err(e) ==> exists|mid: BrokerModel|
                #![trigger ran_tasks(old(app).registry, old(app).broker.model(), mid)]
                ran_tasks(old(app).registry, old(app).broker.model(), mid) && {
                    ||| e == Error::Broker && !old(app).broker.infallible()
                        && final(app).broker.model() == mid
                    ||| failed_dispatch(
                        old(app).registry,
                        !old(app).broker.infallible(),
                        mid,
                        final(app).broker.model(),
                        e,
                    )
                },
    {
        let ghost start = app.broker.model();
        let ghost mut chain: Seq<BrokerModel> = seq![start];
        loop
            invariant
                app.registry == old(app).registry,
                app.broker.infallible() == old(app).broker.infallible(),
                start == old(app).broker.model(),
                ran_chain(app.registry, chain),
                chain[0] == start,
                chain.last() == app.broker.model(),
                app.broker.model().commands == start.commands,
                chain.len() > 1 ==> start.commands_for(self.id@).len() == 0,
            decreases app.broker.model().tasks.len(),
        {
            let ghost before = app.broker.model();
            let turn = self.poll(app);
            match turn {
                Ok(Poll::Dispatched) => {
                    proof {
                        let longer = chain.push(app.broker.model());
                        assert forall|i: int|
                            0 <= i < longer.len() - 1 implies ran_first_task(
                            app.registry,
                            #[trigger] longer[i],
                            longer[i + 1],
                        ) by {
                            if i < chain.len() - 1 {
                                assert(longer[i] == chain[i] && longer[i + 1] == chain[i + 1]);
                            }
                        }
                        chain = longer;
                    }
                },
                Ok(p) => {
                    proof {
                        assert(before.commands_for(self.id@) == start.commands_for(self.id@));
                        if p == Poll::Stop && chain.len() > 1 {
                            assert(false);
                        }
                        if chain.len() == 1 {
                            assert(before == start);
                        }
                        assert(ran_tasks(app.registry, start, before));
                    }
                    return Ok(p);
                },
                Err(e) => {
                    proof {
                        assert(before.commands_for(self.id@) == start.commands_for(self.id@));
                        if chain.len() == 1 {
                            assert(before == start);
                        }
                        assert(ran_tasks(app.registry, start, before));
                    }
                    return Err(e);
                },
            }
        }
    }

    /// Takes one task message off the queue and runs it, without the loop; an
    /// empty queue is an error.
    pub fn take_first_task_in_queue<B: Broker>(&self, app: &mut App<B, R>) -> (r: Result<
        (),
        Error,
    >)
        ensures
            final(app).registry == old(app).registry,
            final(app).broker.infallible() == old(app).broker.infallible(),
            r is Ok ==> ran_first_task(
                old(app).registry,
                old(app).broker.model(),
                final(app).broker.model(),
            ),
            r matches Err(e) ==> {
                ||| e == Error::EmptyQueue && old(app).broker.model().tasks.len() == 0 && final(app).broker.model() == old(app).broker.model()
                ||| e == Error::Broker && !old(app).broker.infallible() && final(app).broker.model() == old(app).broker.model()
                ||| failed_dispatch(
                    old(app).registry,
                    !old(app).broker.infallible(),
                    old(app).broker.model(),
                    final(app).broker.model(),
                    e,
                )
            },
            old(app).broker.infallible() && old(app).broker.model().tasks.len() == 0 ==> r
                == Err::<(), Error>(Error::EmptyQueue),
            old(app).broker.infallible() && old(app).broker.model().tasks.len() > 0 ==> match old(app).registry.outcome(
                old(app).broker.model().tasks[0].0,
                old(app).broker.model().tasks[0].1,
            ) {
                Ok(_) => r is Ok,
                Err(e) => r == Err::<(), Error>(e),
            },
    {
        if self.run_first_task(app)? {
            Ok(())
        } else {
            Err(Error::EmptyQueue)
        }
    }

    /// Removes this worker from the register, as the last thing it does.
    ///
    /// This never fails: it tells whether the entry was removed, and a failure
    /// leaves the storage as it was.
    pub fn teardown<B: Broker>(&self, app: &mut App<B, R>) -> (r: bool)
        ensures
            final(app).registry == old(app).registry,
            final(app).broker.infallible() == old(app).broker.infallible(),
            old(app).broker.infallible() ==> r,
            r ==> final(app).broker.model() == old(app).broker.model().without_worker(self.id@),
            !r ==> final(app).broker.model() == old(app).broker.model(),
    {
        app.remove_worker_info(self.id.as_str()).is_ok()
    }
}

} // verus!
