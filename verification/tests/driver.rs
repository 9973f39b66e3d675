use mcp_stdio::driver::{
    Action, Driver, Event, Failure, Incoming, MessageKind, Phase, ServerMessage,
};
use mcp_stdio::logs::ProcessLogs;
use mcp_stdio::pending::RequestId;
use mcp_stdio::process::{OutgoingRequest, Process};
use rmcp::model::{ErrorData, JsonRpcMessage, ServerJsonRpcMessage, ServerResult};

/// What the tests send, receive, wait, subscribe and answer with.
type TestProcess = Process<u64, &'static str>;
type TestDriver = Driver<&'static str>;
type TestEvent = Event<&'static str, &'static str, &'static str, i32>;
type TestAction =
    Action<&'static str, &'static str, u64, &'static str, &'static str, i32>;

struct Fixture {
    driver: TestDriver,
    process: TestProcess,
    logs: ProcessLogs,
}

impl Fixture {
    fn new() -> Self {
        Fixture {
            driver: Driver::new(),
            process: Process::new_with_logging("server".to_string()),
            logs: ProcessLogs::new(8),
        }
    }

    fn call(&mut self, id: i64, waiter: u64) -> Option<u64> {
        let request = OutgoingRequest {
            id: RequestId::Number(id),
            method: "ping".to_string(),
            message: (),
        };
        self.process.start_call(&mut self.logs, request, None, (), waiter).displaced
    }

    fn step(&mut self, event: TestEvent) -> TestAction {
        self.driver.step(&mut self.process, &mut self.logs, event)
    }

    fn receive(&mut self, kind: MessageKind, message: &'static str) -> TestAction {
        self.step(Event::Received(Some(Incoming {
            message: ServerMessage { kind, message },
            serialized: Some(message.to_string()),
        })))
    }
}

fn response(id: i64) -> MessageKind {
    MessageKind::Response { id: RequestId::Number(id) }
}

#[test]
fn a_message_is_sent_and_the_loop_goes_on() {
    let mut fixture = Fixture::new();
    assert!(matches!(fixture.driver.phase(), Phase::Running));
    fixture.call(1, 10);
    assert!(matches!(fixture.step(Event::Outgoing("hello")), Action::Send("hello")));
    assert!(matches!(fixture.driver.phase(), Phase::Sending));
    assert!(matches!(fixture.step(Event::Sent(Ok(()))), Action::Wait));
    assert!(matches!(fixture.driver.phase(), Phase::Running));
    assert_eq!(fixture.logs.formatted(), "no stdout/stderr captured yet");
    assert_eq!(fixture.call(1, 11), Some(10));
}

#[test]
fn a_failed_send_ends_the_loop() {
    let mut fixture = Fixture::new();
    fixture.call(1, 10);
    fixture.step(Event::Outgoing("hello"));
    let action = fixture.step(Event::Sent(Err("broken pipe\n".to_string())));
    assert!(matches!(action, Action::Stop));
    assert!(matches!(fixture.driver.phase(), Phase::Stopped));
    assert_eq!(fixture.logs.formatted(), "stdout:\ntransport send error: broken pipe");
    assert_eq!(fixture.call(1, 11), None);
}

#[test]
fn a_response_reaches_its_caller_once() {
    let mut fixture = Fixture::new();
    fixture.call(1, 10);
    fixture.call(2, 20);
    assert!(matches!(
        fixture.receive(response(2), "two"),
        Action::Reply { waiter: 20, message: "two" }
    ));
    assert!(matches!(fixture.receive(response(2), "again"), Action::Wait));
    assert!(matches!(
        fixture.receive(response(1), "one"),
        Action::Reply { waiter: 10, message: "one" }
    ));
    assert_eq!(fixture.logs.formatted(), "stdout:\n<<< two\n<<< again\n<<< one");
}

#[test]
fn a_response_reaches_its_caller_through_other_traffic() {
    let mut fixture = Fixture::new();
    fixture.call(1, 10);
    fixture.call(2, 20);
    fixture.step(Event::Outgoing("a"));
    fixture.step(Event::Sent(Ok(())));
    fixture.receive(response(2), "two");
    fixture.receive(response(3), "nobody");
    fixture.receive(MessageKind::Notification, "note");
    fixture.process.get_event_stream("late");
    fixture.logs.record_stderr_line("noise");
    assert!(matches!(
        fixture.receive(response(1), "one"),
        Action::Reply { waiter: 10, message: "one" }
    ));
}

#[test]
fn identifiers_of_different_kinds_do_not_meet() {
    let mut fixture = Fixture::new();
    fixture.call(1, 10);
    let kind = MessageKind::Response { id: RequestId::Text("1".to_string()) };
    assert!(matches!(fixture.receive(kind, "text"), Action::Wait));
    assert_eq!(fixture.call(1, 11), Some(10));
}

#[test]
fn other_messages_go_to_the_last_subscriber() {
    let mut fixture = Fixture::new();
    fixture.call(1, 10);
    assert!(matches!(fixture.receive(MessageKind::Notification, "lost"), Action::Wait));
    fixture.process.get_event_stream("first");
    assert!(matches!(
        fixture.receive(MessageKind::Request, "to first"),
        Action::Publish { stream, message: "to first" } if *stream == "first"
    ));
    fixture.process.get_event_stream("second");
    for kind in [MessageKind::Request, MessageKind::Notification, MessageKind::Error] {
        assert!(matches!(
            fixture.receive(kind, "to second"),
            Action::Publish { stream, message: "to second" } if *stream == "second"
        ));
    }
    assert_eq!(fixture.call(1, 11), Some(10));
}

#[test]
fn a_response_without_a_text_is_delivered_but_not_logged() {
    let mut fixture = Fixture::new();
    fixture.call(1, 10);
    let action = fixture.step(Event::Received(Some(Incoming {
        message: ServerMessage { kind: response(1), message: "one" },
        serialized: None,
    })));
    assert!(matches!(action, Action::Reply { waiter: 10, message: "one" }));
    assert_eq!(fixture.logs.formatted(), "no stdout/stderr captured yet");
}

#[test]
fn the_end_of_the_transport_ends_the_loop() {
    let mut fixture = Fixture::new();
    fixture.call(1, 10);
    assert!(matches!(fixture.step(Event::Received(None)), Action::Stop));
    assert!(matches!(fixture.driver.phase(), Phase::Stopped));
    assert_eq!(fixture.logs.formatted(), "stdout:\ntransport receive returned none");
    assert_eq!(fixture.call(1, 11), None);
}

#[test]
fn stopping_closes_and_answers() {
    let mut fixture = Fixture::new();
    fixture.call(1, 10);
    assert!(matches!(fixture.step(Event::Shutdown("who")), Action::Close));
    assert!(matches!(fixture.driver.phase(), Phase::Closing { answer: Some("who") }));
    let action = fixture.step(Event::Closed(Ok(())));
    assert!(matches!(action, Action::Answer { answer: "who", error: None }));
    assert!(matches!(fixture.driver.phase(), Phase::Stopped));
    assert_eq!(fixture.logs.formatted(), "no stdout/stderr captured yet");
    assert_eq!(fixture.call(1, 11), None);
}

#[test]
fn stopping_answers_with_the_error_of_closing() {
    let mut fixture = Fixture::new();
    fixture.step(Event::Shutdown("who"));
    let action = fixture.step(Event::Closed(Err(Failure {
        error: 5,
        message: "still busy".to_string(),
    })));
    assert!(matches!(action, Action::Answer { answer: "who", error: Some(5) }));
    assert_eq!(fixture.logs.formatted(), "stdout:\ntransport close error: still busy");
}

#[test]
fn an_exhausted_loop_closes_and_ends() {
    let mut fixture = Fixture::new();
    fixture.call(1, 10);
    assert!(matches!(fixture.step(Event::Exhausted), Action::Close));
    assert!(matches!(fixture.driver.phase(), Phase::Closing { answer: None }));
    let action = fixture.step(Event::Closed(Err(Failure {
        error: 5,
        message: "late".to_string(),
    })));
    assert!(matches!(action, Action::Stop));
    assert_eq!(fixture.logs.formatted(), "stdout:\ntransport close error: late");
    assert_eq!(fixture.call(1, 11), None);
}

#[test]
fn the_action_tells_what_to_wait_for() {
    let mut fixture = Fixture::new();
    fixture.call(1, 10);
    fixture.process.get_event_stream("subscriber");
    assert!(matches!(fixture.receive(response(1), "one"), Action::Reply { .. }));
    assert!(matches!(fixture.driver.phase(), Phase::Running));
    assert!(matches!(fixture.receive(MessageKind::Notification, "n"), Action::Publish { .. }));
    assert!(matches!(fixture.driver.phase(), Phase::Running));
    assert!(matches!(fixture.receive(response(1), "late"), Action::Wait));
    assert!(matches!(fixture.driver.phase(), Phase::Running));
    assert!(matches!(fixture.step(Event::Outgoing("x")), Action::Send(_)));
    assert!(matches!(fixture.driver.phase(), Phase::Sending));
    assert!(matches!(fixture.step(Event::Sent(Ok(()))), Action::Wait));
    assert!(matches!(fixture.step(Event::Exhausted), Action::Close));
    assert!(matches!(fixture.driver.phase(), Phase::Closing { .. }));
}

#[test]
fn received_messages_are_logged_as_json() {
    let mut driver: TestDriver = Driver::new();
    let mut process: TestProcess = Process::new_with_logging("server".to_string());
    let mut logs = ProcessLogs::new(8);
    let request = OutgoingRequest {
        id: RequestId::Number(4),
        method: "ping".to_string(),
        message: (),
    };
    process.start_call(&mut logs, request, None, (), 40);
    process.get_event_stream("subscriber");

    let id = rmcp::model::RequestId::Number(4);
    let answer = ServerJsonRpcMessage::response(ServerResult::empty(()), id.clone());
    let action: Action<(), ServerJsonRpcMessage, u64, &str, &str, ()> = driver.receive(
        &mut process,
        &mut logs,
        Some(ServerMessage { kind: response(4), message: answer }),
    );
    assert!(matches!(
        action,
        Action::Reply { waiter: 40, message: JsonRpcMessage::Response(answered) }
            if answered.id == id
    ));

    let error = ServerJsonRpcMessage::error(ErrorData::internal_error("bad", None), id.clone());
    let action: Action<(), ServerJsonRpcMessage, u64, &str, &str, ()> = driver.receive(
        &mut process,
        &mut logs,
        Some(ServerMessage { kind: MessageKind::Error, message: error }),
    );
    assert!(matches!(
        action,
        Action::Publish { stream, message: JsonRpcMessage::Error(published) }
            if *stream == "subscriber" && published.id == id
    ));

    let action: Action<(), ServerJsonRpcMessage, u64, &str, &str, ()> =
        driver.receive(&mut process, &mut logs, None);
    assert!(matches!(action, Action::Stop));
    assert_eq!(
        logs.formatted(),
        "stdout:\n\
         <<< {\"jsonrpc\":\"2.0\",\"id\":4,\"result\":{}}\n\
         <<< {\"jsonrpc\":\"2.0\",\"id\":4,\"error\":{\"code\":-32603,\"message\":\"bad\"}}\n\
         transport receive returned none"
    );
}
