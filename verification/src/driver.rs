//! The event loop between the callers and the transport.
//!
//! The loop is a state and a step function. Whoever runs it waits for the events
//! that the state accepts, takes a step for each, and carries out the action.
use rmcp::model::ServerJsonRpcMessage;
use std::sync::Arc;
use vstd::prelude::*;

use crate::logs::ProcessLogs;
use crate::pending::RequestId;
use crate::process::Process;
use crate::wire::serialize_server_message;

verus! {

/// The kinds of JSON-RPC messages. A response carries the identifier of the
/// request that it answers.
#[derive(Debug)]
pub enum MessageKind {
    Request,
    Response { id: RequestId },
    Notification,
    Error,
}

/// A message from the transport and its kind.
pub struct ServerMessage<N> {
    pub kind: MessageKind,
    pub message: N,
}

/// A message from the transport, and what serializing it gave.
pub struct Incoming<N> {
    pub message: ServerMessage<N>,
    pub serialized: Option<String>,
}

/// An error and the text that it is shown as.
pub struct Failure<E> {
    pub error: E,
    pub message: String,
}

/// What the event loop is doing.
pub enum Phase<A> {
    /// It waits for whatever comes first.
    Running,
    /// It waits for the transport to send a message.
    Sending,
    /// It waits for the transport to close, and then answers whoever asked for
    /// that, if anyone did.
    Closing { answer: Option<A> },
    /// It has ended.
    Stopped,
}

/// What happens to the event loop.
pub enum Event<T, N, A, E> {
    /// A caller has handed over something to send.
    Outgoing(T),
    /// The transport has sent it, or failed with an error of the given text.
    Sent(Result<(), String>),
    /// The transport has received a message, or has come to its end.
    Received(Option<Incoming<N>>),
    /// A caller asks to stop.
    Shutdown(A),
    /// Nothing can come any more.
    Exhausted,
    /// The transport has closed.
    Closed(Result<(), Failure<E>>),
}

/// What the event loop is to do next.
pub enum Action<T, N, W, S, A, E> {
    /// Wait for the next event.
    Wait,
    /// Give this to the transport to send.
    Send(T),
    /// Give the message to the waiter, then wait for the next event.
    Reply { waiter: W, message: N },
    /// Give the message to the subscriber, then wait for the next event.
    Publish { stream: Arc<S>, message: N },
    /// Close the transport.
    Close,
    /// Answer whoever asked to stop, then end.
    Answer { answer: A, error: Option<E> },
    /// End.
    Stop,
}

/// Everything that a step of the event loop reads and changes.
pub struct SystemView<W, S, A> {
    pub phase: Phase<A>,
    pub process: crate::process::ProcessView<W, S>,
    pub log: crate::logs::LogView,
}

impl<A> Phase<A> {
    /// The events that can happen while the loop does this.
    pub open spec fn accepts<T, N, E>(self, event: Event<T, N, A, E>) -> bool {
        match event {
            Event::Outgoing(_) => self is Running,
            Event::Received(_) => self is Running,
            Event::Shutdown(_) => self is Running,
            Event::Exhausted => self is Running,
            Event::Sent(_) => self is Sending,
            Event::Closed(_) => self is Closing,
        }
    }
}

impl<W, S, A> SystemView<W, S, A> {
    /// The loop ends: `log` is what is logged, and no request waits any longer.
    pub open spec fn stopped(self, log: crate::logs::LogView) -> Self {
        SystemView {
            phase: Phase::Stopped,
            process: crate::process::ProcessView { pending: Map::empty(), ..self.process },
            log,
        }
    }

    /// The state after a message from the transport. A response takes its waiter
    /// with it.
    pub open spec fn after_message<N>(
        self,
        message: ServerMessage<N>,
        json: Option<Seq<char>>,
    ) -> Self {
        SystemView {
            process: match message.kind {
                MessageKind::Response { id } => crate::process::ProcessView {
                    pending: self.process.pending.remove(id@),
                    ..self.process
                },
                _ => self.process,
            },
            log: self.log.with_serialized("<<<"@, json),
            ..self
        }
    }

    /// Where a message from the transport goes: a response to the waiter with its
    /// identifier, a message of any other kind, an error too, to the subscriber.
    /// Without one it goes nowhere.
    pub open spec fn route<T, N, E>(self, message: ServerMessage<N>) -> Action<T, N, W, S, A, E> {
        match message.kind {
            MessageKind::Response { id } => if self.process.pending.contains_key(id@) {
                Action::Reply { waiter: self.process.pending[id@], message: message.message }
            } else {
                Action::Wait
            },
            _ => match self.process.event_stream {
                Some(stream) => Action::Publish { stream, message: message.message },
                None => Action::Wait,
            },
        }
    }

    /// The state after `event`.
    pub open spec fn after<T, N, E>(self, event: Event<T, N, A, E>) -> Self {
        match event {
            Event::Outgoing(_) => SystemView { phase: Phase::Sending, ..self },
            Event::Sent(Ok(_)) => SystemView { phase: Phase::Running, ..self },
            Event::Sent(Err(text)) => self.stopped(
                self.log.with_stdout("transport send error: "@ + text@),
            ),
            Event::Received(Some(incoming)) => self.after_message(
                incoming.message,
                crate::logs::text_of(incoming.serialized),
            ),
            Event::Received(None) => self.stopped(
                self.log.with_stdout("transport receive returned none"@),
            ),
            Event::Shutdown(answer) => SystemView {
                phase: Phase::Closing { answer: Some(answer) },
                ..self
            },
            Event::Exhausted => SystemView { phase: Phase::Closing { answer: None }, ..self },
            Event::Closed(Ok(_)) => self.stopped(self.log),
            Event::Closed(Err(failure)) => self.stopped(
                self.log.with_stdout("transport close error: "@ + failure.message@),
            ),
        }
    }

    /// What to do after `event`.
    pub open spec fn action<T, N, E>(self, event: Event<T, N, A, E>) -> Action<T, N, W, S, A, E> {
        match event {
            Event::Outgoing(item) => Action::Send(item),
            Event::Sent(Ok(_)) => Action::Wait,
            Event::Sent(Err(_)) => Action::Stop,
            Event::Received(Some(incoming)) => self.route(incoming.message),
            Event::Received(None) => Action::Stop,
            Event::Shutdown(_) => Action::Close,
            Event::Exhausted => Action::Close,
            Event::Closed(closed) => match self.phase {
                Phase::Closing { answer: Some(answer) } => Action::Answer {
                    answer,
                    error: match closed {
                        Ok(_) => None,
                        Err(failure) => Some(failure.error),
                    },
                },
                _ => Action::Stop,
            },
        }
    }
}

/// What a step of `driver` reads and changes.
pub open spec fn system<W, S, A>(
    driver: Driver<A>,
    process: Process<W, S>,
    logs: ProcessLogs,
) -> SystemView<W, S, A> {
    SystemView { phase: driver@, process: process@, log: logs@ }
}

/// The event loop of one process. `A` is what it answers a request to stop with.
pub struct Driver<A> {
    phase: Phase<A>,
}

impl<A> View for Driver<A> {
    type V = Phase<A>;

    closed spec fn view(&self) -> Phase<A> {
        self.phase
    }
}

impl<A> Driver<A> {
    /// An event loop that waits for its first event.
    pub fn new() -> (result: Self)
        ensures
            result@ == Phase::<A>::Running,
    {
        Self { phase: Phase::Running }
    }

    /// What the event loop is doing.
    pub fn phase(&self) -> (result: &Phase<A>)
        ensures
            *result == self@,
    {
        &self.phase
    }

    /// Takes `event` in, and returns what to do next.
    pub fn step<T, N, E, W, S>(
        &mut self,
        process: &mut Process<W, S>,
        logs: &mut ProcessLogs,
        event: Event<T, N, A, E>,
    ) -> (action: Action<T, N, W, S, A, E>)
        requires
            old(self)@.accepts(event),
        ensures
            system(*final(self), *final(process), *final(logs)) == system(
                *old(self),
                *old(process),
                *old(logs),
            ).after(event),
            action == system(*old(self), *old(process), *old(logs)).action(event),
            old(logs)@.well_formed() ==> final(logs)@.well_formed(),
    {
        match event {
            Event::Outgoing(item) => {
                self.phase = Phase::Sending;
                Action::Send(item)
            },
            Event::Sent(Ok(_)) => {
                self.phase = Phase::Running;
                Action::Wait
            },
            Event::Sent(Err(text)) => {
                let line = "transport send error: ".to_owned().concat(text.as_str());
                logs.record_stdout_line(line.as_str());
                process.drop_waiters();
                self.phase = Phase::Stopped;
                Action::Stop
            },
            Event::Received(Some(incoming)) => {
                logs.record_serialized("<<<", incoming.serialized);
                let message = incoming.message.message;
                match incoming.message.kind {
                    MessageKind::Response { id } => match process.take_waiter(&id) {
                        Some(waiter) => Action::Reply { waiter, message },
                        None => Action::Wait,
                    },
                    _ => match process.subscriber() {
                        Some(stream) => Action::Publish { stream, message },
                        None => Action::Wait,
                    },
                }
            },
            Event::Received(None) => {
                logs.record_stdout_line("transport receive returned none");
                process.drop_waiters();
                self.phase = Phase::Stopped;
                Action::Stop
            },
            Event::Shutdown(answer) => {
                self.phase = Phase::Closing { answer: Some(answer) };
                Action::Close
            },
            Event::Exhausted => {
                self.phase = Phase::Closing { answer: None };
                Action::Close
            },
            Event::Closed(closed) => {
                let error = match closed {
                    Ok(_) => None,
                    Err(failure) => {
                        let line = "transport close error: ".to_owned().concat(
                            failure.message.as_str(),
                        );
                        logs.record_stdout_line(line.as_str());
                        Some(failure.error)
                    },
                };
                process.drop_waiters();
                let mut phase = Phase::Stopped;
                std::mem::swap(&mut phase, &mut self.phase);
                match phase {
                    Phase::Closing { answer: Some(answer) } => Action::Answer { answer, error },
                    _ => Action::Stop,
                }
            },
        }
    }

    /// Takes in what the transport has received: records its JSON text, whole and
    /// in one new line, and says where it goes.
    pub fn receive<T, E, W, S>(
        &mut self,
        process: &mut Process<W, S>,
        logs: &mut ProcessLogs,
        received: Option<ServerMessage<ServerJsonRpcMessage>>,
    ) -> (action: Action<T, ServerJsonRpcMessage, W, S, A, E>)
        requires
            old(self)@ is Running,
        ensures
            match received {
                Some(message) => {
                    &&& system(*final(self), *final(process), *final(logs)) == system(
                        *old(self),
                        *old(process),
                        *old(logs),
                    ).after_message(message, crate::wire::server_message_json(message.message))
                    &&& action == system(*old(self), *old(process), *old(logs)).route::<
                        T,
                        ServerJsonRpcMessage,
                        E,
                    >(message)
                    &&& final(logs)@ == match crate::wire::server_message_json(message.message) {
                        Some(text) => old(logs)@.with_message_line("<<<"@, text),
                        None => old(logs)@,
                    }
                },
                None => {
                    &&& system(*final(self), *final(process), *final(logs)) == system(
                        *old(self),
                        *old(process),
                        *old(logs),
                    ).stopped(old(logs)@.with_stdout("transport receive returned none"@))
                    &&& action is Stop
                },
            },
            old(logs)@.well_formed() ==> final(logs)@.well_formed(),
    {
        let incoming = match received {
            Some(message) => {
                let serialized = serialize_server_message(&message.message);
                proof {
                    if let Some(text) = &serialized {
                        crate::logs::lemma_message_recorded_whole(logs@, "<<<"@, text@);
                    }
                }
                Some(Incoming { message, serialized })
            },
            None => None,
        };
        self.step(process, logs, Event::Received(incoming))
    }
}

} // verus!
