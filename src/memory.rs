use vstd::prelude::*;

use crate::broker::{registered, Broker, BrokerModel, WorkerInfo, WorkerState};
use crate::error::Error;
use crate::messages::{Command, Message, ResultMessage};
use crate::table::Table;

verus! {

/// A copy of a command queue.
fn copy_commands(queue: &Vec<Command>) -> (r: Vec<Command>)
    ensures
        r@ == queue@,
{
    let mut r: Vec<Command> = Vec::new();
    let mut i: usize = 0;
    while i < queue.len()
        invariant
            i <= queue@.len(),
            r@ == queue@.take(i as int),
        decreases queue@.len() - i,
    {
        r.push(queue[i]);
        i = i + 1;
        assert(r@ =~= queue@.take(i as int));
    }
    assert(queue@.take(i as int) =~= queue@);
    r
}

/// A broker that keeps everything in the memory of one process.
pub struct InMemoryBroker {
    tasks: Vec<Message>,
    command_queues: Table<Vec<Command>>,
    task_results: Table<String>,
    worker_register: Table<WorkerState>,
}

impl InMemoryBroker {
    /// A broker with empty queues, no results and no workers.
    pub fn new() -> (r: Self)
        ensures
            r.model().tasks.len() == 0,
            r.model().commands.is_empty(),
            r.model().results.is_empty(),
            r.model().workers.is_empty(),
    {
        let r = InMemoryBroker {
            tasks: Vec::new(),
            command_queues: Table::new(),
            task_results: Table::new(),
            worker_register: Table::new(),
        };
        assert(r.model().tasks =~= Seq::<(Seq<char>, Seq<char>)>::empty());
        r
    }
}

impl Broker for InMemoryBroker {
    open spec fn infallible(&self) -> bool {
        true
    }

    closed spec fn model(&self) -> BrokerModel {
        BrokerModel {
            tasks: self.tasks@.map_values(|m: Message| m@),
            commands: self.command_queues.map(),
            results: self.task_results.map(),
            workers: self.worker_register.map(),
        }
    }

    fn push_message(&mut self, message: &Message) -> (r: Result<(), Error>) {
        self.tasks.push(message.duplicate());
        assert(self.model().tasks =~= old(self).model().tasks.push(message@));
        assert(self.model() == old(self).model().with_task(message@));
        Ok(())
    }

    fn pop_message(&mut self) -> (r: Result<Option<Message>, Error>) {
        if self.tasks.len() == 0 {
            return Ok(None);
        }
        let m = self.tasks.remove(0);
        assert(self.model().tasks =~= old(self).model().tasks.drop_first());
        assert(self.model() == old(self).model().without_first_task());
        Ok(Some(m))
    }

    fn push_command(&mut self, command: &Command, worker_id: &str) -> (r: Result<(), Error>) {
        let mut queue = match self.command_queues.get(worker_id) {
            Some(q) => copy_commands(q),
            None => Vec::new(),
        };
        assert(queue@ == old(self).model().commands_for(worker_id@));
        queue.push(*command);
        self.command_queues.insert(worker_id, queue);
        assert(self.model() == old(self).model().with_command(worker_id@, *command));
        Ok(())
    }

    fn pop_command(&mut self, worker_id: &str) -> (r: Result<Option<Command>, Error>) {
        let mut queue = match self.command_queues.get(worker_id) {
            Some(q) => copy_commands(q),
            None => {
                return Ok(None);
            },
        };
        if queue.len() == 0 {
            return Ok(None);
        }
        let command = queue.remove(0);
        assert(queue@ =~= old(self).model().commands_for(worker_id@).drop_first());
        self.command_queues.insert(worker_id, queue);
        assert(self.model() == old(self).model().without_first_command(worker_id@));
        Ok(Some(command))
    }

    fn store_result(&mut self, result_message: ResultMessage) -> (r: Result<(), Error>) {
        let ResultMessage { signature_id, result } = result_message;
        self.task_results.insert(signature_id.as_str(), result);
        assert(self.model() == old(self).model().with_result(
            result_message.signature_id@,
            result_message.result@,
        ));
        Ok(())
    }

    fn get_result(&self, signature_id: &str) -> (r: Result<Option<ResultMessage>, Error>) {
        match self.task_results.get(signature_id) {
            Some(result) => Ok(
                Some(ResultMessage { signature_id: signature_id.to_owned(), result: result.clone() }),
            ),
            None => Ok(None),
        }
    }

    fn update_worker_info(&mut self, info: WorkerInfo) -> (r: Result<(), Error>) {
        self.worker_register.insert(info.id.as_str(), info.state);
        assert(self.model() == old(self).model().with_worker(info.id@, info.state));
        Ok(())
    }

    fn remove_worker_info(&mut self, worker_id: &str) -> (r: Result<(), Error>) {
        self.worker_register.remove(worker_id);
        assert(self.model() == old(self).model().without_worker(worker_id@));
        Ok(())
    }

    fn get_worker_info(&self, worker_id: &str) -> (r: Result<Option<WorkerInfo>, Error>) {
        match self.worker_register.get(worker_id) {
            Some(state) => Ok(Some(WorkerInfo { state: *state, id: worker_id.to_owned() })),
            None => Ok(None),
        }
    }

    fn all_workers(&self) -> (r: Result<Option<Vec<WorkerInfo>>, Error>) {
        let ghost workers = self.model().workers;
        let table = &self.worker_register;
        let mut infos: Vec<WorkerInfo> = Vec::new();
        // The index in the table of each listed entry, each the last of its key.
        let ghost mut from: Seq<int> = Seq::empty();
        let mut i: usize = 0;
        let n = table.len();
        while i < n
            invariant
                workers == table.map(),
                n == table.size(),
                i <= n,
                from.len() == infos@.len(),
                forall|a: int|
                    0 <= a < from.len() ==> 0 <= #[trigger] from[a] < i && infos@[a].id@
                        == table.key_at(from[a]) && table.latest(from[a]),
                forall|a: int| 0 <= a < infos@.len() ==> registered(workers, #[trigger] infos@[a]),
                forall|a: int, b: int|
                    0 <= a < b < infos@.len() ==> #[trigger] infos@[a].id@ != #[trigger] infos@[b].id@,
                forall|j: int|
                    0 <= j < i && table.latest(j) ==> exists|a: int|
                        #![trigger from[a]]
                        0 <= a < from.len() && from[a] == j,
            decreases n - i,
        {
            let id = table.key(i);
            if table.is_latest(i) {
                let state = match table.get(id.as_str()) {
                    Some(state) => *state,
                    None => WorkerState::Stopped,
                };
                let info = WorkerInfo { state, id: id.clone() };
                let ghost listed = infos@;
                let ghost before = from;
                infos.push(info);
                proof {
                    from = from.push(i as int);
                    assert forall|a: int| 0 <= a < infos@.len() implies registered(
                        workers,
                        #[trigger] infos@[a],
                    ) by {
                        if a < listed.len() {
                            assert(infos@[a] == listed[a]);
                        }
                    }
                    assert forall|a: int, b: int|
                        0 <= a < b < infos@.len() implies #[trigger] infos@[a].id@
                        != #[trigger] infos@[b].id@ by {
                        assert(infos@[a] == listed[a] || a >= listed.len());
                        if b == listed.len() {
                            assert(before[a] < i);
                            assert(table.latest(before[a]));
                            assert(table.key_at(i as int) != table.key_at(before[a]));
                        } else {
                            assert(infos@[b] == listed[b]);
                        }
                    }
                    assert forall|a: int|
                        0 <= a < from.len() implies 0 <= #[trigger] from[a] < i + 1 && infos@[a].id@
                        == table.key_at(from[a]) && table.latest(from[a]) by {
                        if a < listed.len() {
                            assert(infos@[a] == listed[a]);
                            assert(from[a] == before[a]);
                        }
                    }
                    assert forall|j: int|
                        0 <= j < i + 1 && table.latest(j) implies exists|a: int|
                            #![trigger from[a]]
                            0 <= a < from.len() && from[a] == j by {
                        if j < i {
                            let a = choose|a: int|
                                #![trigger before[a]]
                                0 <= a < before.len() && before[a] == j;
                            assert(from[a] == before[a]);
                        } else {
                            assert(from[from.len() - 1] == j);
                        }
                    }
                }
            }
            i = i + 1;
        }
        proof {
            assert forall|id: Seq<char>| #[trigger] workers.contains_key(id) implies exists|a: int|
                #![trigger infos@[a]]
                0 <= a < infos@.len() && infos@[a].id@ == id by {
                table.lemma_has_latest_entry(id);
                let j = choose|j: int|
                    0 <= j < table.size() && #[trigger] table.key_at(j) == id && table.latest(j);
                let a = choose|a: int| #![trigger from[a]] 0 <= a < from.len() && from[a] == j;
                assert(infos@[a].id@ == id);
            }
        }
        assert(self.model().workers == workers);
        Ok(Some(infos))
    }
}

} // verus!
