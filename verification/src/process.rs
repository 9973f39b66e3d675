//! The callers' side of an upstream process: sending requests and notifications,
//! subscribing to events, stopping.
//!
//! Each operation that waits is split where it waits. The first part is named
//! after the operation and says what to hand to the event loop; a later part
//! takes what came of it. The log is shared with the reader of the child's
//! standard error, so the operations that use it take it as an argument.
use rmcp::model::{ClientJsonRpcMessage, ClientNotification};
use std::sync::Arc;
use vstd::prelude::*;

use crate::logs::{ProcessLogs, STDIO_LOG_CAPACITY};
use crate::pending::{clear_pending_requests, PendingRequests, RequestId};
use crate::wire::{
    notification_message, serialize_client_message, serialize_client_notification,
};

verus! {

/// The other end of a channel is gone.
#[derive(Debug)]
pub struct ChannelClosed;

/// Why an operation on an upstream failed. `X` is the transport's own error.
#[derive(Debug)]
pub enum UpstreamError<X> {
    /// The event loop takes no more messages.
    Send,
    /// No response will come.
    Recv,
    /// The `initialize` request failed.
    InitializeFailed { details: String },
    /// The transport failed.
    Transport(X),
}

/// A request to be sent: its identifier, its method, and the message as a whole.
pub struct OutgoingRequest<M> {
    pub id: RequestId,
    pub method: String,
    pub message: M,
}

/// The method of the request that a session starts with.
pub open spec fn is_initialize(method: Seq<char>) -> bool {
    method == "initialize"@
}

/// A message for the event loop to send, with the context of the request that it
/// comes from.
pub struct Outgoing<M, C> {
    pub message: M,
    pub context: C,
}

/// What a caller remembers of a request that it has sent.
#[derive(Debug)]
pub struct PendingCall {
    pub id: RequestId,
    pub is_initialize: bool,
}

/// A request that has been entered into the table and is to be handed to the
/// event loop.
pub struct StartedCall<M, C, W> {
    pub call: PendingCall,
    pub outgoing: Outgoing<M, C>,
    /// The waiter of an earlier request with the same identifier.
    pub displaced: Option<W>,
}

/// What an upstream process remembers.
pub struct ProcessView<W, S> {
    pub pending: Map<crate::pending::RequestIdView, W>,
    pub event_stream: Option<Arc<S>>,
    pub command_label: Seq<char>,
}

/// The text that a failed `initialize` request is reported with.
pub open spec fn initialize_details(
    command_label: Seq<char>,
    err_msg: Seq<char>,
    log: crate::logs::LogView,
) -> Seq<char> {
    "failed to initialize stdio command '"@ + command_label + "': "@ + err_msg
        + ". Recent MCP stdio output:\n"@ + log.formatted()
}

/// `result` reports `err`: with the details if the request was `initialize`, and
/// as it is otherwise.
pub open spec fn reports<X>(
    result: UpstreamError<X>,
    err: UpstreamError<X>,
    is_initialize: bool,
    command_label: Seq<char>,
    err_msg: Seq<char>,
    log: crate::logs::LogView,
) -> bool {
    if is_initialize {
        result matches UpstreamError::InitializeFailed { details } && details@
            == initialize_details(command_label, err_msg, log)
    } else {
        result == err
    }
}

/// An upstream process as its callers see it. `W` is what a caller waits for its
/// response with, `S` what a subscriber receives events with.
pub struct Process<W, S> {
    pending: PendingRequests<W>,
    event_stream: Option<Arc<S>>,
    command_label: String,
}

impl<W, S> View for Process<W, S> {
    type V = ProcessView<W, S>;

    closed spec fn view(&self) -> ProcessView<W, S> {
        ProcessView {
            pending: self.pending@,
            event_stream: self.event_stream,
            command_label: self.command_label@,
        }
    }
}

impl<W, S> Process<W, S> {
    /// A process with a log of its own and a label that names no command.
    pub fn new() -> (result: (Self, ProcessLogs))
        ensures
            result.0@ == (ProcessView::<W, S> {
                pending: Map::empty(),
                event_stream: None,
                command_label: "mcp transport"@,
            }),
            result.1@ == (crate::logs::LogView {
                stdout: Seq::empty(),
                stderr: Seq::empty(),
                capacity: STDIO_LOG_CAPACITY as nat,
            }),
    {
        proof {
            crate::logs::lemma_allocatable(STDIO_LOG_CAPACITY);
        }
        let logs = ProcessLogs::new(STDIO_LOG_CAPACITY);
        (Self::new_with_logging("mcp transport".to_owned()), logs)
    }

    /// A process without requests or subscribers, for the command that
    /// `command_label` names.
    pub fn new_with_logging(command_label: String) -> (result: Self)
        ensures
            result@ == (ProcessView::<W, S> {
                pending: Map::empty(),
                event_stream: None,
                command_label: command_label@,
            }),
    {
        Self { pending: PendingRequests::new(), event_stream: None, command_label }
    }

    /// Records a request under what serializing it gave, and enters its waiter
    /// into the table. An earlier request with the same identifier loses its
    /// place there.
    pub fn start_call<M, C>(
        &mut self,
        logs: &mut ProcessLogs,
        request: OutgoingRequest<M>,
        serialized: Option<String>,
        context: C,
        waiter: W,
    ) -> (result: StartedCall<M, C, W>)
        ensures
            final(logs)@ == old(logs)@.with_serialized(">>>"@, crate::logs::text_of(serialized)),
            old(logs)@.well_formed() ==> final(logs)@.well_formed(),
            final(self)@ == (ProcessView {
                pending: old(self)@.pending.insert(request.id@, waiter),
                ..old(self)@
            }),
            result.call.id@ == request.id@,
            result.call.is_initialize == is_initialize(request.method@),
            result.outgoing == (Outgoing { message: request.message, context }),
            result.displaced == if old(self)@.pending.contains_key(request.id@) {
                Some(old(self)@.pending[request.id@])
            } else {
                None
            },
    {
        logs.record_serialized(">>>", serialized);
        let call = PendingCall {
            id: request.id.duplicate(),
            is_initialize: request.method == "initialize".to_owned(),
        };
        let displaced = self.pending.insert(request.id, waiter);
        StartedCall { call, outgoing: Outgoing { message: request.message, context }, displaced }
    }

    /// Starts to send a request: records its JSON text, enters its waiter into
    /// the table, and returns what to hand to the event loop. The outcome of
    /// that goes to `request_forwarded`.
    pub fn send_message<C>(
        &mut self,
        logs: &mut ProcessLogs,
        request: OutgoingRequest<ClientJsonRpcMessage>,
        context: C,
        waiter: W,
    ) -> (result: StartedCall<ClientJsonRpcMessage, C, W>)
        ensures
            exists|json: Option<Seq<char>>|
                {
                    &&& #[trigger] crate::wire::client_message_jsons(request.message).contains(json)
                    &&& final(logs)@ == match json {
                        Some(text) => old(logs)@.with_message_line(">>>"@, text),
                        None => old(logs)@,
                    }
                },
            old(logs)@.well_formed() ==> final(logs)@.well_formed(),
            final(self)@ == (ProcessView {
                pending: old(self)@.pending.insert(request.id@, waiter),
                ..old(self)@
            }),
            result.call.id@ == request.id@,
            result.call.is_initialize == is_initialize(request.method@),
            result.outgoing == (Outgoing { message: request.message, context }),
            result.displaced == if old(self)@.pending.contains_key(request.id@) {
                Some(old(self)@.pending[request.id@])
            } else {
                None
            },
    {
        let serialized = serialize_client_message(&request.message);
        proof {
            if let Some(text) = &serialized {
                crate::logs::lemma_message_recorded_whole(logs@, ">>>"@, text@);
            }
        }
        self.start_call(logs, request, serialized, context, waiter)
    }

    /// Takes the outcome of handing a request to the event loop. If that failed,
    /// the table forgets the request's identifier and the failure is reported,
    /// where `err_msg` is the text of `UpstreamError::Send`.
    pub fn request_forwarded<X>(
        &mut self,
        logs: &ProcessLogs,
        call: PendingCall,
        forwarded: Result<(), ChannelClosed>,
        err_msg: &str,
    ) -> (result: Result<PendingCall, UpstreamError<X>>)
        ensures
            result is Ok <==> forwarded is Ok,
            match result {
                Ok(same) => same == call && final(self)@ == old(self)@,
                Err(err) => {
                    &&& final(self)@ == (ProcessView {
                        pending: old(self)@.pending.remove(call.id@),
                        ..old(self)@
                    })
                    &&& reports(
                        err,
                        UpstreamError::Send,
                        call.is_initialize,
                        old(self)@.command_label,
                        err_msg@,
                        logs@,
                    )
                },
            },
    {
        match forwarded {
            Ok(_) => Ok(call),
            Err(_) => {
                let _ = self.pending.remove(&call.id);
                Err(
                    self.handle_initialize_error(
                        logs,
                        UpstreamError::Send,
                        err_msg,
                        call.is_initialize,
                    ),
                )
            },
        }
    }

    /// Takes the end of the wait for a response. If none came, the table forgets
    /// the request's identifier and the failure is reported, where `err_msg` is
    /// the text of `UpstreamError::Recv`.
    pub fn reply_received<R, X>(
        &mut self,
        logs: &ProcessLogs,
        call: PendingCall,
        reply: Result<R, ChannelClosed>,
        err_msg: &str,
    ) -> (result: Result<R, UpstreamError<X>>)
        ensures
            match reply {
                Ok(response) => result == Ok::<R, UpstreamError<X>>(response) && final(self)@
                    == old(self)@,
                Err(_) => {
                    &&& final(self)@ == (ProcessView {
                        pending: old(self)@.pending.remove(call.id@),
                        ..old(self)@
                    })
                    &&& result matches Err(err) && reports(
                        err,
                        UpstreamError::Recv,
                        call.is_initialize,
                        old(self)@.command_label,
                        err_msg@,
                        logs@,
                    )
                },
            },
    {
        match reply {
            Ok(response) => Ok(response),
            Err(_) => {
                let _ = self.pending.remove(&call.id);
                Err(
                    self.handle_initialize_error(
                        logs,
                        UpstreamError::Recv,
                        err_msg,
                        call.is_initialize,
                    ),
                )
            },
        }
    }

    /// From now on `stream` receives the messages that are no responses, and
    /// whoever received them before does not.
    pub fn get_event_stream(&mut self, stream: S)
        ensures
            final(self)@ == (ProcessView { event_stream: Some(Arc::new(stream)), ..old(self)@ }),
    {
        self.event_stream = Some(Arc::new(stream));
    }

    /// Records a notification under what serializing it gave, and returns what to
    /// hand to the event loop.
    pub fn start_notification<M, C>(
        &self,
        logs: &mut ProcessLogs,
        message: M,
        serialized: Option<String>,
        context: C,
    ) -> (result: Outgoing<M, C>)
        ensures
            final(logs)@ == old(logs)@.with_serialized(">>>"@, crate::logs::text_of(serialized)),
            old(logs)@.well_formed() ==> final(logs)@.well_formed(),
            result == (Outgoing { message, context }),
    {
        logs.record_serialized(">>>", serialized);
        Outgoing { message, context }
    }

    /// Starts to send a notification: records the JSON text of the message that
    /// carries it and returns what to hand to the event loop. The outcome of that
    /// goes to `notification_forwarded`.
    pub fn send_notification<C>(
        &self,
        logs: &mut ProcessLogs,
        notification: ClientNotification,
        context: C,
    ) -> (result: Outgoing<ClientJsonRpcMessage, C>)
        ensures
            final(logs)@ == match crate::wire::client_notification_json(notification) {
                Some(text) => old(logs)@.with_message_line(">>>"@, text),
                None => old(logs)@,
            },
            old(logs)@.well_formed() ==> final(logs)@.well_formed(),
            result == (Outgoing {
                message: crate::wire::client_notification_message(notification),
                context,
            }),
    {
        let serialized = serialize_client_notification(&notification);
        proof {
            if let Some(text) = &serialized {
                crate::logs::lemma_message_recorded_whole(logs@, ">>>"@, text@);
            }
        }
        self.start_notification(logs, notification_message(notification), serialized, context)
    }

    /// Takes the outcome of handing a notification to the event loop.
    pub fn notification_forwarded<X>(&self, forwarded: Result<(), ChannelClosed>) -> (result:
        Result<(), UpstreamError<X>>)
        ensures
            result == match forwarded {
                Ok(_) => Ok::<(), UpstreamError<X>>(()),
                Err(_) => Err(UpstreamError::Send),
            },
    {
        match forwarded {
            Ok(_) => Ok(()),
            Err(_) => Err(UpstreamError::Send),
        }
    }

    /// Takes the event loop's answer to a request to stop: the error of closing
    /// the transport, if there was one.
    pub fn stop<X>(&self, answer: Result<Option<UpstreamError<X>>, ChannelClosed>) -> (result:
        Result<(), UpstreamError<X>>)
        ensures
            result == match answer {
                Ok(None) => Ok::<(), UpstreamError<X>>(()),
                Ok(Some(err)) => Err(err),
                Err(_) => Err(UpstreamError::Send),
            },
    {
        match answer {
            Ok(None) => Ok(()),
            Ok(Some(err)) => Err(err),
            Err(_) => Err(UpstreamError::Send),
        }
    }

    /// Takes the waiter for `id` out of the table.
    pub(crate) fn take_waiter(&mut self, id: &RequestId) -> (result: Option<W>)
        ensures
            final(self)@ == (ProcessView {
                pending: old(self)@.pending.remove(id@),
                ..old(self)@
            }),
            result == if old(self)@.pending.contains_key(id@) {
                Some(old(self)@.pending[id@])
            } else {
                None
            },
    {
        self.pending.remove(id)
    }

    /// Takes every waiter out of the table.
    pub(crate) fn drop_waiters(&mut self)
        ensures
            final(self)@ == (ProcessView { pending: Map::empty(), ..old(self)@ }),
    {
        clear_pending_requests(&mut self.pending);
    }

    /// Whoever receives the messages that are no responses.
    pub(crate) fn subscriber(&self) -> (result: Option<Arc<S>>)
        ensures
            result == self@.event_stream,
    {
        match &self.event_stream {
            Some(stream) => Some(Arc::clone(stream)),
            None => None,
        }
    }

    /// Turns `err`, whose text is `err_msg`, into the error to report. A failed
    /// `initialize` request is reported with the command and the recent log.
    pub fn handle_initialize_error<X>(
        &self,
        logs: &ProcessLogs,
        err: UpstreamError<X>,
        err_msg: &str,
        is_initialize: bool,
    ) -> (result: UpstreamError<X>)
        ensures
            reports(result, err, is_initialize, self@.command_label, err_msg@, logs@),
    {
        if !is_initialize {
            return err;
        }
        let snippet = logs.formatted();
        let details = "failed to initialize stdio command '".to_owned().concat(
            self.command_label.as_str(),
        ).concat("': ").concat(err_msg).concat(". Recent MCP stdio output:\n").concat(
            snippet.as_str(),
        );
        UpstreamError::InitializeFailed { details }
    }
}

} // verus!
