use mcp_stdio::logs::ProcessLogs;
use mcp_stdio::pending::{clear_pending_requests, PendingRequests, RequestId};
use mcp_stdio::process::{ChannelClosed, OutgoingRequest, PendingCall, Process, UpstreamError};
use rmcp::model::{
    CancelledNotification, CancelledNotificationParam, ClientJsonRpcMessage, ClientNotification, ClientRequest, InitializeRequest,
    InitializeRequestParam, InitializedNotification, JsonRpcMessage, PingRequest,
};

type TestProcess = Process<u64, String>;
type TestError = UpstreamError<String>;

fn text(id: &str) -> RequestId {
    RequestId::Text(id.to_string())
}

fn ping(id: i64) -> OutgoingRequest<ClientJsonRpcMessage> {
    OutgoingRequest {
        id: RequestId::Number(id),
        method: "ping".to_string(),
        message: ClientJsonRpcMessage::request(
            ClientRequest::PingRequest(PingRequest::default()),
            rmcp::model::RequestId::Number(id),
        ),
    }
}

fn call(id: i64, is_initialize: bool) -> PendingCall {
    PendingCall { id: RequestId::Number(id), is_initialize }
}

#[test]
fn initialize_failure_includes_command_name() {
    let mut logs = ProcessLogs::new(5);
    logs.record_stderr_line("bash: line 1: nonexistent-cmd: command not found\n");
    let mut process = TestProcess::new_with_logging("bash -lc nonexistent-cmd".to_string());

    let init = InitializeRequest::new(InitializeRequestParam::default());
    let message = ClientJsonRpcMessage::request(init.into(), rmcp::model::RequestId::Number(0));
    let JsonRpcMessage::Request(init_request) = message.clone() else {
        panic!("expected request");
    };
    let request = OutgoingRequest {
        id: RequestId::Number(0),
        method: init_request.request.method().to_string(),
        message,
    };
    let started = process.send_message(&mut logs, request, (), 1);
    logs.record_stdout_line("transport receive returned none");
    let call = process
        .request_forwarded::<String>(&logs, started.call, Ok(()), "upstream closed on send")
        .expect("forwarded");
    let result: Result<(), TestError> =
        process.reply_received(&logs, call, Err(ChannelClosed), "upstream closed on receive");
    let UpstreamError::InitializeFailed { details } =
        result.expect_err("expected initialization failure")
    else {
        panic!("expected initialization failure");
    };
    assert!(details.contains("bash"));
    assert!(details.contains("nonexistent-cmd"));
    assert!(details.contains("upstream closed on receive"));
    assert!(details.contains("command not found"));
    assert!(details.contains(">>> {\"jsonrpc\":\"2.0\",\"id\":0,\"method\":\"initialize\""));
    assert!(details.ends_with("\ntransport receive returned none"));
}

#[test]
fn initialize_details_have_a_fixed_form() {
    let mut logs = ProcessLogs::new(5);
    let process = TestProcess::new_with_logging("server --stdio".to_string());
    let UpstreamError::InitializeFailed { details } =
        process.handle_initialize_error::<String>(&logs, UpstreamError::Send, "closed", true)
    else {
        panic!("expected details");
    };
    assert_eq!(
        details,
        "failed to initialize stdio command 'server --stdio': closed. \
         Recent MCP stdio output:\nno stdout/stderr captured yet"
    );
    logs.record_stderr_line("boom");
    let UpstreamError::InitializeFailed { details } =
        process.handle_initialize_error::<String>(&logs, UpstreamError::Recv, "gone", true)
    else {
        panic!("expected details");
    };
    assert_eq!(
        details,
        "failed to initialize stdio command 'server --stdio': gone. \
         Recent MCP stdio output:\nstderr:\nboom"
    );
}

#[test]
fn other_failures_are_reported_as_they_are() {
    let logs = ProcessLogs::new(5);
    let process = TestProcess::new_with_logging("server".to_string());
    let send = process.handle_initialize_error::<String>(&logs, UpstreamError::Send, "x", false);
    assert!(matches!(send, UpstreamError::Send));
    let recv = process.handle_initialize_error::<String>(&logs, UpstreamError::Recv, "x", false);
    assert!(matches!(recv, UpstreamError::Recv));
    let own = process.handle_initialize_error(
        &logs,
        UpstreamError::Transport("io".to_string()),
        "x",
        false,
    );
    assert!(matches!(own, UpstreamError::Transport(error) if error == "io"));
}

#[test]
fn a_new_process_is_labelled_as_a_transport() {
    let (process, logs) = TestProcess::new();
    assert_eq!(logs.formatted(), "no stdout/stderr captured yet");
    let UpstreamError::InitializeFailed { details } =
        process.handle_initialize_error::<String>(&logs, UpstreamError::Send, "e", true)
    else {
        panic!("expected details");
    };
    assert!(details.starts_with("failed to initialize stdio command 'mcp transport': e. "));
}

#[test]
fn a_request_is_logged_and_handed_over() {
    let mut logs = ProcessLogs::new(5);
    let mut process = TestProcess::new_with_logging("server".to_string());
    let started = process.send_message(&mut logs, ping(7), "context", 70);
    assert_eq!(
        logs.formatted(),
        "stdout:\n>>> {\"jsonrpc\":\"2.0\",\"id\":7,\"method\":\"ping\"}"
    );
    assert!(started.displaced.is_none());
    assert!(!started.call.is_initialize);
    assert!(started.call.id.same(&RequestId::Number(7)));
    assert_eq!(started.outgoing.context, "context");
    assert!(matches!(
        started.outgoing.message,
        JsonRpcMessage::Request(request) if request.id == rmcp::model::RequestId::Number(7)
    ));
}

#[test]
fn a_call_takes_the_text_it_is_given() {
    let mut logs = ProcessLogs::new(5);
    let mut process = TestProcess::new_with_logging("server".to_string());
    let request = OutgoingRequest {
        id: text("abc"),
        method: "initialize".to_string(),
        message: "payload",
    };
    let started = process.start_call(&mut logs, request, Some("TEXT".to_string()), 3, 30);
    assert_eq!(logs.formatted(), "stdout:\n>>> TEXT");
    assert!(started.call.is_initialize);
    assert_eq!(started.outgoing.message, "payload");
    assert_eq!(started.outgoing.context, 3);

    let request = OutgoingRequest {
        id: text("def"),
        method: "initialized".to_string(),
        message: "payload",
    };
    let started = process.start_call(&mut logs, request, None, 3, 31);
    assert!(!started.call.is_initialize);
    assert_eq!(logs.formatted(), "stdout:\n>>> TEXT");
}

#[test]
fn a_reused_identifier_displaces_the_earlier_waiter() {
    let mut logs = ProcessLogs::new(5);
    let mut process = TestProcess::new_with_logging("server".to_string());
    assert_eq!(process.send_message(&mut logs, ping(1), (), 10).displaced, None);
    assert_eq!(process.send_message(&mut logs, ping(2), (), 20).displaced, None);
    assert_eq!(process.send_message(&mut logs, ping(1), (), 11).displaced, Some(10));
    // The earlier caller gives up, and the later waiter goes with it.
    let gone: Result<(), TestError> =
        process.reply_received(&logs, call(1, false), Err(ChannelClosed), "gone");
    assert!(matches!(gone, Err(UpstreamError::Recv)));
    assert_eq!(process.send_message(&mut logs, ping(1), (), 12).displaced, None);
    assert_eq!(process.send_message(&mut logs, ping(2), (), 21).displaced, Some(20));
}

#[test]
fn a_request_that_cannot_be_handed_over_is_forgotten() {
    let mut logs = ProcessLogs::new(5);
    let mut process = TestProcess::new_with_logging("server".to_string());
    let started = process.send_message(&mut logs, ping(1), (), 10);
    let failed = process.request_forwarded::<String>(
        &logs,
        started.call,
        Err(ChannelClosed),
        "upstream closed on send",
    );
    assert!(matches!(failed, Err(UpstreamError::Send)));
    assert_eq!(process.send_message(&mut logs, ping(1), (), 11).displaced, None);
}

#[test]
fn an_initialize_request_that_cannot_be_handed_over_is_reported_in_full() {
    let logs = ProcessLogs::new(5);
    let mut process = TestProcess::new_with_logging("server".to_string());
    let failed = process.request_forwarded::<String>(
        &logs,
        call(0, true),
        Err(ChannelClosed),
        "upstream closed on send",
    );
    assert!(matches!(
        failed,
        Err(UpstreamError::InitializeFailed { details })
            if details.contains("'server': upstream closed on send. ")
    ));
}

#[test]
fn a_request_that_was_handed_over_stays_in_the_table() {
    let mut logs = ProcessLogs::new(5);
    let mut process = TestProcess::new_with_logging("server".to_string());
    let started = process.send_message(&mut logs, ping(1), (), 10);
    let kept = process
        .request_forwarded::<String>(&logs, started.call, Ok(()), "unused")
        .expect("forwarded");
    assert!(kept.id.same(&RequestId::Number(1)));
    let reply: Result<&str, TestError> = process.reply_received(&logs, kept, Ok("pong"), "unused");
    assert!(matches!(reply, Ok("pong")));
    assert_eq!(process.send_message(&mut logs, ping(1), (), 11).displaced, Some(10));
}

#[test]
fn a_notification_is_logged_and_handed_over() {
    let mut logs = ProcessLogs::new(5);
    let process = TestProcess::new_with_logging("server".to_string());
    let notification =
        ClientNotification::InitializedNotification(InitializedNotification::default());
    let outgoing = process.send_notification(&mut logs, notification, 5);
    assert_eq!(
        logs.formatted(),
        "stdout:\n>>> {\"jsonrpc\":\"2.0\",\"method\":\"notifications/initialized\"}"
    );
    assert_eq!(outgoing.context, 5);
    assert!(matches!(
        outgoing.message,
        JsonRpcMessage::Notification(carried)
            if matches!(carried.notification, ClientNotification::InitializedNotification(_))
    ));

    let outgoing = process.start_notification(&mut logs, "m", Some("N".to_string()), 6);
    assert_eq!((outgoing.message, outgoing.context), ("m", 6));
    assert!(logs.formatted().ends_with("\n>>> N"));
}

#[test]
fn a_notification_with_line_ends_is_logged_whole() {
    let mut logs = ProcessLogs::new(5);
    let process = TestProcess::new_with_logging("server".to_string());
    let notification = ClientNotification::CancelledNotification(CancelledNotification::new(
        CancelledNotificationParam {
            request_id: rmcp::model::RequestId::Number(3),
            reason: Some("late\r\n".to_string()),
        },
    ));
    process.send_notification(&mut logs, notification, ());
    assert_eq!(
        logs.formatted(),
        "stdout:\n>>> {\"jsonrpc\":\"2.0\",\"method\":\"notifications/cancelled\",\
         \"params\":{\"requestId\":3,\"reason\":\"late\\r\\n\"}}"
    );
}

#[test]
fn a_notification_fails_only_where_the_loop_is_gone() {
    let process = TestProcess::new_with_logging("server".to_string());
    assert!(process.notification_forwarded::<String>(Ok(())).is_ok());
    assert!(matches!(
        process.notification_forwarded::<String>(Err(ChannelClosed)),
        Err(UpstreamError::Send)
    ));
}

#[test]
fn stopping_gives_the_error_of_closing() {
    let process = TestProcess::new_with_logging("server".to_string());
    assert!(process.stop::<String>(Ok(None)).is_ok());
    assert!(matches!(
        process.stop(Ok(Some(UpstreamError::Transport("busy".to_string())))),
        Err(UpstreamError::Transport(error)) if error == "busy"
    ));
    assert!(matches!(
        process.stop::<String>(Err(ChannelClosed)),
        Err(UpstreamError::Send)
    ));
}

#[test]
fn the_table_keeps_one_waiter_for_each_identifier() {
    let mut pending: PendingRequests<&str> = PendingRequests::new();
    assert_eq!(pending.remove(&RequestId::Number(1)), None);
    assert_eq!(pending.insert(RequestId::Number(1), "a"), None);
    assert_eq!(pending.insert(text("1"), "b"), None);
    assert_eq!(pending.insert(RequestId::Number(-1), "c"), None);
    assert_eq!(pending.insert(RequestId::Number(1), "d"), Some("a"));
    assert_eq!(pending.remove(&RequestId::Number(1)), Some("d"));
    assert_eq!(pending.remove(&RequestId::Number(1)), None);
    assert_eq!(pending.remove(&text("1")), Some("b"));
    assert_eq!(pending.remove(&text("2")), None);
    assert_eq!(pending.remove(&RequestId::Number(-1)), Some("c"));
}

#[test]
fn clearing_releases_every_waiter() {
    let mut pending: PendingRequests<u8> = PendingRequests::new();
    for number in 0..4 {
        pending.insert(RequestId::Number(number), 0);
    }
    clear_pending_requests(&mut pending);
    for number in 0..4 {
        assert_eq!(pending.remove(&RequestId::Number(number)), None);
    }
}

#[test]
fn identifiers_are_the_same_by_kind_and_value() {
    assert!(RequestId::Number(3).same(&RequestId::Number(3)));
    assert!(!RequestId::Number(3).same(&RequestId::Number(4)));
    assert!(text("x").same(&text("x")));
    assert!(!text("x").same(&text("y")));
    assert!(!text("3").same(&RequestId::Number(3)));
    assert!(text("x").duplicate().same(&text("x")));
    assert!(RequestId::Number(3).duplicate().same(&RequestId::Number(3)));
}
