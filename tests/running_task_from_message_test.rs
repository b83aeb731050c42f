use std::collections::{HashMap, VecDeque};

use parsnip::broker::{Broker, WorkerInfo, WorkerState};
use parsnip::error::Error;
use parsnip::memory::InMemoryBroker;
use parsnip::messages::{Command, Message, ResultMessage};
use parsnip::payload::Payload;
use parsnip::registry::Registry;
use parsnip::task::{Signature, Task};
use parsnip::worker::{Poll, Worker};
use parsnip::App;

struct InMemoryTestBroker {
    task_results: HashMap<String, ResultMessage>,
    queue: VecDeque<Message>,
    command_queues: HashMap<String, VecDeque<Command>>,
    worker_register: HashMap<String, WorkerInfo>,
    fail_writes: bool,
}

impl InMemoryTestBroker {
    fn new() -> Self {
        Self {
            task_results: HashMap::new(),
            queue: VecDeque::new(),
            command_queues: HashMap::new(),
            worker_register: HashMap::new(),
            fail_writes: false,
        }
    }

    fn failing() -> Self {
        let mut broker = Self::new();
        broker.fail_writes = true;
        broker
    }

    fn check_write(&self) -> Result<(), Error> {
        if self.fail_writes {
            Err(Error::Broker)
        } else {
            Ok(())
        }
    }
}

impl Broker for InMemoryTestBroker {
    fn push_message(&mut self, message: &Message) -> Result<(), Error> {
        self.check_write()?;
        self.queue.push_back(message.duplicate());
        Ok(())
    }

    fn pop_message(&mut self) -> Result<Option<Message>, Error> {
        Ok(self.queue.pop_front())
    }

    fn push_command(&mut self, command: &Command, worker_id: &str) -> Result<(), Error> {
        self.check_write()?;
        self.command_queues
            .entry(worker_id.to_string())
            .or_default()
            .push_back(*command);
        Ok(())
    }

    fn pop_command(&mut self, worker_id: &str) -> Result<Option<Command>, Error> {
        Ok(self
            .command_queues
            .get_mut(worker_id)
            .and_then(|queue| queue.pop_front()))
    }

    fn store_result(&mut self, result_message: ResultMessage) -> Result<(), Error> {
        self.check_write()?;
        self.task_results
            .insert(result_message.signature_id.clone(), result_message);
        Ok(())
    }

    fn get_result(&self, signature_id: &str) -> Result<Option<ResultMessage>, Error> {
        Ok(self.task_results.get(signature_id).map(|m| m.duplicate()))
    }

    fn update_worker_info(&mut self, info: WorkerInfo) -> Result<(), Error> {
        self.check_write()?;
        self.worker_register.insert(info.id.clone(), info);
        Ok(())
    }

    fn remove_worker_info(&mut self, worker_id: &str) -> Result<(), Error> {
        self.check_write()?;
        self.worker_register.remove(worker_id);
        Ok(())
    }

    fn get_worker_info(&self, worker_id: &str) -> Result<Option<WorkerInfo>, Error> {
        Ok(self.worker_register.get(worker_id).map(|info| WorkerInfo {
            state: info.state,
            id: info.id.clone(),
        }))
    }

    fn all_workers(&self) -> Result<Option<Vec<WorkerInfo>>, Error> {
        Ok(Some(
            self.worker_register
                .values()
                .map(|info| WorkerInfo {
                    state: info.state,
                    id: info.id.clone(),
                })
                .collect(),
        ))
    }
}

struct SummationTask {
    called_with_signature: Signature<Self>,
}

impl Task for SummationTask {
    type ArgumentType = Vec<usize>;
    type ReturnType = usize;

    const ID: &'static str = "SummationTask";

    fn from_signature(signature: Signature<Self>) -> Self {
        Self {
            called_with_signature: signature,
        }
    }

    fn run(arg: &Self::ArgumentType) -> Self::ReturnType {
        arg.iter().sum()
    }

    fn signature(&self) -> &Signature<Self> {
        &self.called_with_signature
    }
}

struct CountTask {
    called_with_signature: Signature<Self>,
}

impl Task for CountTask {
    type ArgumentType = Vec<usize>;
    type ReturnType = usize;

    const ID: &'static str = "SummationTask";

    fn from_signature(signature: Signature<Self>) -> Self {
        Self {
            called_with_signature: signature,
        }
    }

    fn run(arg: &Self::ArgumentType) -> Self::ReturnType {
        arg.len()
    }

    fn signature(&self) -> &Signature<Self> {
        &self.called_with_signature
    }
}

struct HelloWorldTask {
    called_with_signature: Signature<Self>,
}

impl Task for HelloWorldTask {
    type ArgumentType = ();
    type ReturnType = usize;

    const ID: &'static str = "HelloWorldTask";

    fn from_signature(signature: Signature<Self>) -> Self {
        Self {
            called_with_signature: signature,
        }
    }

    fn run(_: &Self::ArgumentType) -> Self::ReturnType {
        42
    }

    fn signature(&self) -> &Signature<Self> {
        &self.called_with_signature
    }
}

fn is_crockford(id: &str) -> bool {
    id.len() == 26
        && id
            .chars()
            .all(|c| "0123456789ABCDEFGHJKMNPQRSTVWXYZ".contains(c))
}

fn state_of<B: Broker, R: Registry>(app: &App<B, R>, worker_id: &str) -> Option<WorkerState> {
    app.get_worker_info(worker_id)
        .expect("the test broker does not fail reads")
        .map(|info| info.state)
}

#[test]
fn test_running_task_from_message() -> Result<(), Error> {
    let mut app = App::new(InMemoryTestBroker::new()).register_task::<SummationTask>();

    app.queue_task::<SummationTask>(vec![1, 2, 3])?;

    {
        let worker = Worker::new(&mut app)?;
        worker.take_first_task_in_queue(&mut app)?;
        worker.teardown(&mut app);
    }

    assert_eq!(app.broker.task_results.len(), 1);
    let first_task_result = app.broker.task_results.values().next().unwrap();
    let return_value = serde_json::from_str::<usize>(&first_task_result.result).unwrap();

    assert_eq!(return_value, 6); // = 1 + 2 + 3

    Ok(())
}

#[test]
fn submitted_sum_is_stored_under_its_invocation_id() {
    let mut app = App::new(InMemoryTestBroker::new()).register_task::<SummationTask>();
    let id = app.queue_task::<SummationTask>(vec![1, 2, 3]).unwrap();
    assert!(is_crockford(&id));
    assert!(app.get_task_result(&id).unwrap().is_none());

    let worker = Worker::new(&mut app).unwrap();
    worker.take_first_task_in_queue(&mut app).unwrap();

    let stored = app.get_task_result(&id).unwrap().unwrap();
    assert_eq!(stored.signature_id, id);
    assert_eq!(stored.result, "6");
    assert_eq!(<usize as Payload>::from_json(&stored.result), Some(6));
}

#[test]
fn queued_message_carries_the_serialized_signature() {
    let mut app = App::new(InMemoryTestBroker::new()).register_task::<SummationTask>();
    let id = app.queue_task::<SummationTask>(vec![1, 2, 3]).unwrap();
    assert_eq!(app.broker.queue.len(), 1);
    let message = &app.broker.queue[0];
    assert_eq!(message.task_id, "SummationTask");
    assert_eq!(
        message.signature,
        format!("{{\"arg\":[1,2,3],\"id\":\"{}\"}}", id)
    );
}

#[test]
fn invocation_ids_are_fresh() {
    let mut app = App::new(InMemoryTestBroker::new()).register_task::<SummationTask>();
    let first = app.queue_task::<SummationTask>(vec![1]).unwrap();
    let second = app.queue_task::<SummationTask>(vec![1]).unwrap();
    assert_ne!(first, second);
}

#[test]
fn signature_round_trips() {
    let signature = Signature::<SummationTask> {
        arg: vec![4, 0, 17],
        id: "01ARZ3NDEKTSV4RRFFQ69G5FAV".to_string(),
    };
    let text = signature.to_serialized().unwrap();
    assert_eq!(text, "{\"arg\":[4,0,17],\"id\":\"01ARZ3NDEKTSV4RRFFQ69G5FAV\"}");
    let back = Signature::<SummationTask>::from_serialized(&text).unwrap();
    assert_eq!(back.arg, vec![4, 0, 17]);
    assert_eq!(back.id, "01ARZ3NDEKTSV4RRFFQ69G5FAV");
}

#[test]
fn signature_with_empty_argument_round_trips() {
    let signature = Signature::<SummationTask> {
        arg: vec![],
        id: "X".to_string(),
    };
    let back = Signature::<SummationTask>::from_serialized(&signature.to_serialized().unwrap()).unwrap();
    assert!(back.arg.is_empty());
    assert_eq!(back.id, "X");

    let unit = Signature::<HelloWorldTask> {
        arg: (),
        id: "01ARZ3NDEKTSV4RRFFQ69G5FAV".to_string(),
    };
    assert_eq!(
        unit.to_serialized().unwrap(),
        "{\"arg\":null,\"id\":\"01ARZ3NDEKTSV4RRFFQ69G5FAV\"}"
    );
    assert!(Signature::<HelloWorldTask>::from_serialized(&unit.to_serialized().unwrap()).is_ok());
}

#[test]
fn signature_reads_text_written_by_serde() {
    let back =
        Signature::<SummationTask>::from_serialized("{\"arg\":[1,2],\"id\":\"ABC\"}").unwrap();
    assert_eq!(back.arg, vec![1, 2]);
    assert_eq!(back.id, "ABC");
}

#[test]
fn signature_reads_either_field_order() {
    let back =
        Signature::<SummationTask>::from_serialized("{\"id\":\"ABC\",\"arg\":[1,2,3]}").unwrap();
    assert_eq!(back.arg, vec![1, 2, 3]);
    assert_eq!(back.id, "ABC");
}

#[test]
fn signature_id_with_quote_and_backslash_round_trips() {
    let signature = Signature::<SummationTask> {
        arg: vec![7],
        id: "a\"b\\c".to_string(),
    };
    let text = signature.to_serialized().unwrap();
    assert_eq!(text, "{\"arg\":[7],\"id\":\"a\\u0022b\\u005cc\"}");
    let parsed: serde_json::Value = serde_json::from_str(&text).unwrap();
    assert_eq!(parsed["id"].as_str(), Some("a\"b\\c"));
    let back = Signature::<SummationTask>::from_serialized(&text).unwrap();
    assert_eq!(back.arg, vec![7]);
    assert_eq!(back.id, "a\"b\\c");
}

#[test]
fn malformed_signatures_are_serialization_errors() {
    let cases = [
        "",
        "[1,2,3]",
        "{\"arg\":[1,2,3]}",
        "{\"arg\":[1,2,3],\"id\":\"ABC\"",
        "{\"arg\":\"text\",\"id\":\"ABC\"}",
        "{\"arg\":[1,-2],\"id\":\"ABC\"}",
        "{\"arg\":[1],\"id\":\"A\\qB\"}",
        "{\"id\":\"ABC\",\"arg\":[1,2,3]",
    ];
    for case in cases {
        assert!(
            matches!(
                Signature::<SummationTask>::from_serialized(case),
                Err(Error::Serialization)
            ),
            "{}",
            case
        );
    }
}

#[test]
fn return_values_round_trip() {
    for n in [0usize, 6, 42, 1234567890, usize::MAX] {
        let text = n.to_json().unwrap();
        assert_eq!(text, n.to_string());
        assert_eq!(<usize as Payload>::from_json(&text), Some(n));
    }
    let list = vec![10usize, 0, 3];
    assert_eq!(list.to_json().unwrap(), "[10,0,3]");
    assert_eq!(<Vec<usize> as Payload>::from_json("[10,0,3]"), Some(list));
    assert_eq!(Vec::<usize>::new().to_json().unwrap(), "[]");
    assert_eq!(().to_json().unwrap(), "null");
    assert_eq!(<() as Payload>::from_json("null"), Some(()));
    assert_eq!(<usize as Payload>::from_json("x"), None);
}

#[test]
fn registering_twice_dispatches_alike() {
    let mut once = App::new(InMemoryTestBroker::new()).register_task::<SummationTask>();
    let mut twice = App::new(InMemoryTestBroker::new())
        .register_task::<SummationTask>()
        .register_task::<SummationTask>();
    let message = Message {
        task_id: "SummationTask".to_string(),
        signature: "{\"arg\":[5,6],\"id\":\"ID1\"}".to_string(),
    };
    once.handle_message(&message).unwrap();
    twice.handle_message(&message).unwrap();
    assert_eq!(once.get_task_result("ID1").unwrap().unwrap().result, "11");
    assert_eq!(twice.get_task_result("ID1").unwrap().unwrap().result, "11");
}

#[test]
fn later_registration_shadows_earlier() {
    let mut app = App::new(InMemoryTestBroker::new())
        .register_task::<SummationTask>()
        .register_task::<CountTask>();
    let message = Message {
        task_id: "SummationTask".to_string(),
        signature: "{\"arg\":[5,6,7],\"id\":\"ID2\"}".to_string(),
    };
    app.handle_message(&message).unwrap();
    assert_eq!(app.get_task_result("ID2").unwrap().unwrap().result, "3");
}

#[test]
fn submit_without_registration_fails_closed() {
    let mut app = App::new(InMemoryTestBroker::new()).register_task::<HelloWorldTask>();
    let r = app.queue_task::<SummationTask>(vec![1, 2, 3]);
    assert!(matches!(r, Err(Error::UnregisteredTask)));
    assert!(app.broker.queue.is_empty());

    let mut empty = App::new(InMemoryTestBroker::new());
    assert!(matches!(
        empty.queue_task::<HelloWorldTask>(()),
        Err(Error::UnregisteredTask)
    ));
    assert!(empty.broker.queue.is_empty());
}

#[test]
fn dispatch_of_unknown_kind_fails_closed() {
    let mut app = App::new(InMemoryTestBroker::new()).register_task::<SummationTask>();
    let message = Message {
        task_id: "NoSuchTask".to_string(),
        signature: "{\"arg\":[1],\"id\":\"ID3\"}".to_string(),
    };
    assert!(matches!(
        app.handle_message(&message),
        Err(Error::UnknownTask)
    ));
    assert!(app.broker.task_results.is_empty());
}

#[test]
fn dispatch_of_malformed_signature_stores_nothing() {
    let mut app = App::new(InMemoryTestBroker::new()).register_task::<SummationTask>();
    let message = Message {
        task_id: "SummationTask".to_string(),
        signature: "{\"arg\":\"oops\",\"id\":\"ID4\"}".to_string(),
    };
    assert!(matches!(
        app.handle_message(&message),
        Err(Error::Serialization)
    ));
    assert!(app.broker.task_results.is_empty());
}

#[test]
fn broker_failure_is_reported() {
    let mut app = App::new(InMemoryTestBroker::failing()).register_task::<SummationTask>();
    assert!(matches!(
        app.queue_task::<SummationTask>(vec![1]),
        Err(Error::Broker)
    ));
    assert!(app.broker.queue.is_empty());
    assert!(matches!(Worker::new(&mut app), Err(Error::Broker)));
}

#[test]
fn worker_lifecycle() {
    let mut app = App::new(InMemoryTestBroker::new()).register_task::<SummationTask>();
    let worker = Worker::new(&mut app).unwrap();
    assert!(is_crockford(&worker.id));
    assert_eq!(state_of(&app, &worker.id), Some(WorkerState::Pending));

    app.queue_task::<SummationTask>(vec![1, 2, 3]).unwrap();
    app.queue_command(&Command::StopWorker, &worker.id).unwrap();

    worker.start(&mut app).unwrap();
    assert_eq!(state_of(&app, &worker.id), Some(WorkerState::Running));
    assert_eq!(worker.run_until_idle(&mut app).unwrap(), Poll::Stop);
    worker.stop(&mut app).unwrap();

    assert_eq!(app.broker.queue.len(), 1);
    assert!(app.broker.task_results.is_empty());
    assert_eq!(state_of(&app, &worker.id), Some(WorkerState::Stopped));

    assert!(worker.teardown(&mut app));
    assert_eq!(state_of(&app, &worker.id), None);
}

#[test]
fn stop_command_comes_before_queued_task() {
    let mut app = App::new(InMemoryTestBroker::new()).register_task::<SummationTask>();
    let worker = Worker::new(&mut app).unwrap();
    worker.start(&mut app).unwrap();
    assert_eq!(worker.poll(&mut app).unwrap(), Poll::Idle);

    app.queue_task::<SummationTask>(vec![2, 2]).unwrap();
    app.queue_command(&Command::StopWorker, &worker.id).unwrap();
    assert_eq!(worker.poll(&mut app).unwrap(), Poll::Stop);
    assert_eq!(app.broker.queue.len(), 1);

    assert_eq!(worker.poll(&mut app).unwrap(), Poll::Dispatched);
    assert_eq!(app.broker.task_results.len(), 1);
    assert_eq!(worker.poll(&mut app).unwrap(), Poll::Idle);
}

#[test]
fn stop_command_for_another_worker_is_not_taken() {
    let mut app = App::new(InMemoryTestBroker::new()).register_task::<SummationTask>();
    let worker = Worker::new(&mut app).unwrap();
    let other = Worker::new(&mut app).unwrap();
    app.queue_command(&Command::StopWorker, &other.id).unwrap();
    app.queue_task::<SummationTask>(vec![1]).unwrap();
    assert_eq!(worker.run_until_idle(&mut app).unwrap(), Poll::Idle);
    assert_eq!(app.broker.task_results.len(), 1);
    assert_eq!(other.poll(&mut app).unwrap(), Poll::Stop);
}

#[test]
fn empty_queue_is_reported_without_waiting() {
    let mut broker = InMemoryTestBroker::new();
    assert!(broker.pop_message().unwrap().is_none());

    let mut app = App::new(broker).register_task::<SummationTask>();
    let worker = Worker::new(&mut app).unwrap();
    assert_eq!(worker.poll(&mut app).unwrap(), Poll::Idle);
    assert!(matches!(
        worker.take_first_task_in_queue(&mut app),
        Err(Error::EmptyQueue)
    ));
}

#[test]
fn workers_are_listed() {
    let mut app = App::new(InMemoryTestBroker::new()).register_task::<HelloWorldTask>();
    let a = Worker::new(&mut app).unwrap();
    let b = Worker::new(&mut app).unwrap();
    let mut ids: Vec<String> = app
        .list_workers()
        .unwrap()
        .unwrap()
        .into_iter()
        .map(|info| info.id)
        .collect();
    ids.sort();
    let mut expected = vec![a.id.clone(), b.id.clone()];
    expected.sort();
    assert_eq!(ids, expected);
}

#[test]
fn unit_argument_task_runs() {
    let mut app = App::new(InMemoryTestBroker::new()).register_task::<HelloWorldTask>();
    let id = app.queue_task::<HelloWorldTask>(()).unwrap();
    let worker = Worker::new(&mut app).unwrap();
    assert_eq!(worker.run_until_idle(&mut app).unwrap(), Poll::Idle);
    assert_eq!(app.get_task_result(&id).unwrap().unwrap().result, "42");
}

#[test]
fn in_memory_broker_queues_in_order() {
    let mut broker = InMemoryBroker::new();
    assert!(broker.pop_message().unwrap().is_none());
    for n in 0..3 {
        broker
            .push_message(&Message {
                task_id: format!("kind{}", n),
                signature: format!("sig{}", n),
            })
            .unwrap();
    }
    for n in 0..3 {
        let m = broker.pop_message().unwrap().unwrap();
        assert_eq!(m.task_id, format!("kind{}", n));
        assert_eq!(m.signature, format!("sig{}", n));
    }
    assert!(broker.pop_message().unwrap().is_none());
}

#[test]
fn in_memory_broker_keeps_command_queues_apart() {
    let mut broker = InMemoryBroker::new();
    assert!(broker.pop_command("a").unwrap().is_none());
    broker.push_command(&Command::StopWorker, "a").unwrap();
    broker.push_command(&Command::StopWorker, "a").unwrap();
    assert!(broker.pop_command("b").unwrap().is_none());
    assert_eq!(broker.pop_command("a").unwrap(), Some(Command::StopWorker));
    assert_eq!(broker.pop_command("a").unwrap(), Some(Command::StopWorker));
    assert!(broker.pop_command("a").unwrap().is_none());
}

#[test]
fn in_memory_broker_stores_last_result() {
    let mut broker = InMemoryBroker::new();
    assert!(broker.get_result("x").unwrap().is_none());
    for text in ["1", "2"] {
        broker
            .store_result(ResultMessage {
                signature_id: "x".to_string(),
                result: text.to_string(),
            })
            .unwrap();
    }
    let stored = broker.get_result("x").unwrap().unwrap();
    assert_eq!(stored.signature_id, "x");
    assert_eq!(stored.result, "2");
    assert!(broker.get_result("y").unwrap().is_none());
}

#[test]
fn in_memory_broker_tracks_workers() {
    let mut broker = InMemoryBroker::new();
    assert!(broker.all_workers().unwrap().unwrap().is_empty());
    for state in [WorkerState::Pending, WorkerState::Running] {
        broker
            .update_worker_info(WorkerInfo {
                state,
                id: "w1".to_string(),
            })
            .unwrap();
    }
    broker
        .update_worker_info(WorkerInfo {
            state: WorkerState::Pending,
            id: "w2".to_string(),
        })
        .unwrap();
    let info = broker.get_worker_info("w1").unwrap().unwrap();
    assert_eq!(info.id, "w1");
    assert_eq!(info.state, WorkerState::Running);
    let mut listed: Vec<(String, WorkerState)> = broker
        .all_workers()
        .unwrap()
        .unwrap()
        .into_iter()
        .map(|info| (info.id, info.state))
        .collect();
    listed.sort_by(|a, b| a.0.cmp(&b.0));
    assert_eq!(
        listed,
        vec![
            ("w1".to_string(), WorkerState::Running),
            ("w2".to_string(), WorkerState::Pending)
        ]
    );
    broker.remove_worker_info("w1").unwrap();
    assert!(broker.get_worker_info("w1").unwrap().is_none());
    broker.remove_worker_info("w1").unwrap();
    assert_eq!(broker.all_workers().unwrap().unwrap().len(), 1);
}

#[test]
fn worker_lifecycle_on_in_memory_broker() {
    let mut app = App::new(InMemoryBroker::new()).register_task::<SummationTask>();
    let id = app.queue_task::<SummationTask>(vec![1, 2, 3]).unwrap();
    let worker = Worker::new(&mut app).unwrap();
    assert_eq!(state_of(&app, &worker.id), Some(WorkerState::Pending));
    app.queue_command(&Command::StopWorker, &worker.id).unwrap();
    worker.start(&mut app).unwrap();
    assert_eq!(worker.run_until_idle(&mut app).unwrap(), Poll::Stop);
    worker.stop(&mut app).unwrap();
    assert_eq!(state_of(&app, &worker.id), Some(WorkerState::Stopped));
    assert!(app.get_task_result(&id).unwrap().is_none());

    worker.take_first_task_in_queue(&mut app).unwrap();
    assert_eq!(app.get_task_result(&id).unwrap().unwrap().result, "6");
    assert!(worker.teardown(&mut app));
    assert_eq!(state_of(&app, &worker.id), None);
}

#[test]
fn registering_again_after_another_kind_dispatches_alike() {
    let mut app = App::new(InMemoryBroker::new())
        .register_task::<SummationTask>()
        .register_task::<HelloWorldTask>()
        .register_task::<SummationTask>();
    let message = Message {
        task_id: "SummationTask".to_string(),
        signature: "{\"arg\":[5,6],\"id\":\"ID5\"}".to_string(),
    };
    app.handle_message(&message).unwrap();
    app.handle_message(&message).unwrap();
    assert_eq!(app.get_task_result("ID5").unwrap().unwrap().result, "11");
    let hello = Message {
        task_id: "HelloWorldTask".to_string(),
        signature: "{\"arg\":null,\"id\":\"ID6\"}".to_string(),
    };
    app.handle_message(&hello).unwrap();
    assert_eq!(app.get_task_result("ID6").unwrap().unwrap().result, "42");
}
