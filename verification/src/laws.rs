//! What holds of the log, the table and the event loop over any course of events.
use std::sync::Arc;
use vstd::prelude::*;

use crate::driver::{Action, Event, MessageKind, ServerMessage, SystemView};
use crate::logs::LogView;
use crate::pending::RequestIdView;
use crate::process::UpstreamError;

verus! {

/// The lines that recording `raws` one after the other adds.
pub open spec fn visible(raws: Seq<Seq<char>>) -> Seq<Seq<char>>
    decreases raws.len(),
{
    if raws.len() == 0 {
        Seq::empty()
    } else {
        let line = crate::text::trimmed(raws.last());
        if line.len() == 0 {
            visible(raws.drop_last())
        } else {
            visible(raws.drop_last()).push(line)
        }
    }
}

/// `queue` after `raws` have been recorded one after the other.
pub open spec fn recorded_all(
    queue: Seq<Seq<char>>,
    capacity: nat,
    raws: Seq<Seq<char>>,
) -> Seq<Seq<char>>
    decreases raws.len(),
{
    if raws.len() == 0 {
        queue
    } else {
        crate::logs::recorded(
            recorded_all(queue, capacity, raws.drop_last()),
            capacity,
            raws.last(),
        )
    }
}

/// The last `count` lines, or all of them if there are fewer.
pub open spec fn latest(lines: Seq<Seq<char>>, count: nat) -> Seq<Seq<char>> {
    if lines.len() <= count {
        lines
    } else {
        lines.skip(lines.len() - count)
    }
}

/// A queue with a capacity holds the latest lines that were recorded, in order,
/// as many as the capacity allows.
pub proof fn law_log_keeps_the_latest(
    queue: Seq<Seq<char>>,
    capacity: nat,
    raws: Seq<Seq<char>>,
)
    requires
        0 < capacity,
        queue.len() <= capacity,
    ensures
        recorded_all(queue, capacity, raws) == latest(queue + visible(raws), capacity),
        recorded_all(queue, capacity, raws).len() <= capacity,
    decreases raws.len(),
{
    if raws.len() == 0 {
        assert(queue + visible(raws) =~= queue);
    } else {
        let before = raws.drop_last();
        law_log_keeps_the_latest(queue, capacity, before);
        let line = crate::text::trimmed(raws.last());
        if line.len() > 0 {
            assert(queue + visible(raws) =~= (queue + visible(before)).push(line));
            assert(recorded_all(queue, capacity, raws) =~= latest(
                queue + visible(raws),
                capacity,
            ));
        }
    }
}

/// A capacity of zero sets no limit: every line that was recorded stays.
pub proof fn law_zero_capacity_keeps_everything(queue: Seq<Seq<char>>, raws: Seq<Seq<char>>)
    ensures
        recorded_all(queue, 0, raws) == queue + visible(raws),
    decreases raws.len(),
{
    if raws.len() == 0 {
        assert(queue + visible(raws) =~= queue);
    } else {
        law_zero_capacity_keeps_everything(queue, raws.drop_last());
        assert(recorded_all(queue, 0, raws) =~= queue + visible(raws));
    }
}

/// A line that has been recorded can be recorded again without change.
pub proof fn law_trimming_is_stable(raw: Seq<char>)
    ensures
        crate::text::trimmed(crate::text::trimmed(raw)) == crate::text::trimmed(raw),
{
    crate::text::lemma_trimmed_shape(raw);
}

/// The streams of a log do not touch each other, so the order in which lines of
/// different streams arrive does not matter.
pub proof fn law_streams_are_separate(log: LogView, out: Seq<char>, err: Seq<char>)
    ensures
        log.with_stdout(out).stderr == log.stderr,
        log.with_stderr(err).stdout == log.stdout,
        log.with_stdout(out).with_stderr(err) == log.with_stderr(err).with_stdout(out),
{
}

/// A message with a JSON text is always recorded, under its prefix, if the prefix
/// holds anything that is not a line end.
pub proof fn law_messages_are_recorded(
    log: LogView,
    prefix: Seq<char>,
    json: Seq<char>,
    index: int,
)
    requires
        0 <= index < prefix.len(),
        !crate::text::is_line_end(prefix[index]),
    ensures
        log.with_serialized(prefix, Some(json)).stdout == crate::logs::pushed(
            log.stdout,
            log.capacity,
            crate::text::trimmed(prefix + " "@ + json),
        ),
{
    let line = prefix + " "@ + json;
    crate::text::lemma_trimmed_shape(line);
    assert(line[index] == prefix[index]);
    assert(crate::text::trimmed(line).len() > index);
}

/// A message from the transport whose text does not end in a line end leaves
/// exactly one new line of standard output, its whole text under its prefix, and
/// nothing on standard error, whatever its kind and wherever it goes.
pub proof fn law_received_message_leaves_its_line<N, W, S, A>(
    state: SystemView<W, S, A>,
    message: ServerMessage<N>,
    json: Seq<char>,
)
    requires
        json.len() > 0,
        !crate::text::is_line_end(json.last()),
    ensures
        state.after_message(message, Some(json)).log == state.log.with_message_line("<<<"@, json),
        state.after_message(message, Some(json)).log.stderr == state.log.stderr,
{
    crate::logs::lemma_message_recorded_whole(state.log, "<<<"@, json);
}

/// The formatted log shows every line that the log holds.
pub proof fn law_formatted_shows_every_line(log: LogView)
    ensures
        forall|i: int|
            0 <= i < log.stdout.len() ==> crate::text::contains_text(
                log.formatted(),
                #[trigger] log.stdout[i],
            ),
        forall|i: int|
            0 <= i < log.stderr.len() ==> crate::text::contains_text(
                log.formatted(),
                #[trigger] log.stderr[i],
            ),
{
    let nothing = Seq::<char>::empty();
    let out = crate::text::joined(log.stdout, "\n"@);
    let err = crate::text::joined(log.stderr, "\n"@);
    assert forall|i: int| 0 <= i < log.stdout.len() implies crate::text::contains_text(
        log.formatted(),
        #[trigger] log.stdout[i],
    ) by {
        crate::text::lemma_joined_contains(log.stdout, "\n"@, i);
        let before = if log.stderr.len() == 0 {
            "stdout:\n"@
        } else {
            "stderr:\n"@ + err + "\n"@ + "stdout:\n"@
        };
        crate::text::lemma_contains_text_around(before, out, nothing, log.stdout[i]);
        assert(log.formatted() =~= before + out + nothing);
    }
    assert forall|i: int| 0 <= i < log.stderr.len() implies crate::text::contains_text(
        log.formatted(),
        #[trigger] log.stderr[i],
    ) by {
        crate::text::lemma_joined_contains(log.stderr, "\n"@, i);
        let after = if log.stdout.len() == 0 {
            nothing
        } else {
            "\n"@ + "stdout:\n"@ + out
        };
        crate::text::lemma_contains_text_around("stderr:\n"@, err, after, log.stderr[i]);
        assert(log.formatted() =~= "stderr:\n"@ + err + after);
    }
}

/// The sentence for an empty log is given for no other.
pub proof fn law_formatted_tells_empty_logs(log: LogView)
    ensures
        log.formatted() == "no stdout/stderr captured yet"@ <==> log.stdout.len() == 0
            && log.stderr.len() == 0,
{
    reveal_strlit("no stdout/stderr captured yet");
    reveal_strlit("stderr:\n");
    reveal_strlit("stdout:\n");
    if log.stdout.len() != 0 || log.stderr.len() != 0 {
        assert(log.formatted()[0] == 's');
    }
}

/// A failed `initialize` request is reported with the command, the failure, and
/// every line that the log holds.
pub proof fn law_initialize_failure_tells_what_happened<X>(
    result: UpstreamError<X>,
    err: UpstreamError<X>,
    command_label: Seq<char>,
    err_msg: Seq<char>,
    log: LogView,
)
    requires
        crate::process::reports(result, err, true, command_label, err_msg, log),
    ensures
        result matches UpstreamError::InitializeFailed { details } && {
            &&& crate::text::contains_text(details@, command_label)
            &&& crate::text::contains_text(details@, err_msg)
            &&& crate::text::contains_text(details@, log.formatted())
            &&& forall|i: int|
                0 <= i < log.stdout.len() ==> crate::text::contains_text(
                    details@,
                    #[trigger] log.stdout[i],
                )
            &&& forall|i: int|
                0 <= i < log.stderr.len() ==> crate::text::contains_text(
                    details@,
                    #[trigger] log.stderr[i],
                )
        },
{
    let nothing = Seq::<char>::empty();
    let details = crate::process::initialize_details(command_label, err_msg, log);
    let start = "failed to initialize stdio command '"@;
    let middle = "': "@;
    let end = ". Recent MCP stdio output:\n"@;
    let shown = log.formatted();
    assert(details =~= start + command_label + (middle + err_msg + end + shown));
    assert(details =~= (start + command_label + middle) + err_msg + (end + shown));
    let head = start + command_label + middle + err_msg + end;
    assert(details =~= head + shown + nothing);
    law_formatted_shows_every_line(log);
    assert forall|i: int| 0 <= i < log.stdout.len() implies crate::text::contains_text(
        details,
        #[trigger] log.stdout[i],
    ) by {
        crate::text::lemma_contains_text_around(head, shown, nothing, log.stdout[i]);
    }
    assert forall|i: int| 0 <= i < log.stderr.len() implies crate::text::contains_text(
        details,
        #[trigger] log.stderr[i],
    ) by {
        crate::text::lemma_contains_text_around(head, shown, nothing, log.stderr[i]);
    }
}

/// One thing that happens to a process, its log and its event loop.
pub enum Occurrence<T, N, W, S, A, E> {
    /// The event loop takes a step.
    Step(Event<T, N, A, E>),
    /// A caller starts to send a request with this JSON text.
    Call { id: RequestIdView, waiter: W, json: Option<Seq<char>> },
    /// A caller gives a request up.
    Failure { id: RequestIdView },
    /// A caller starts to send a notification with this JSON text.
    Notification { json: Option<Seq<char>> },
    /// A caller subscribes to events.
    Subscription { stream: Arc<S> },
    /// The child process writes to its standard error.
    Stderr { raw: Seq<char> },
}

impl<T, N, W, S, A, E> Occurrence<T, N, W, S, A, E> {
    /// Whether the requests with identifier `id` have to do with it: they are
    /// started, given up or answered, or the event loop ends.
    pub open spec fn concerns(self, id: RequestIdView) -> bool {
        match self {
            Occurrence::Step(Event::Sent(sent)) => sent is Err,
            Occurrence::Step(Event::Received(None)) => true,
            Occurrence::Step(Event::Received(Some(incoming))) => match incoming.message.kind {
                MessageKind::Response { id: answered } => answered@ == id,
                _ => false,
            },
            Occurrence::Step(Event::Closed(_)) => true,
            Occurrence::Step(_) => false,
            Occurrence::Call { id: called, waiter: _, json: _ } => called == id,
            Occurrence::Failure { id: failed } => failed == id,
            _ => false,
        }
    }
}

/// The state after `occurrence`.
pub open spec fn then<T, N, W, S, A, E>(
    state: SystemView<W, S, A>,
    occurrence: Occurrence<T, N, W, S, A, E>,
) -> SystemView<W, S, A> {
    match occurrence {
        Occurrence::Step(event) => state.after(event),
        Occurrence::Call { id, waiter, json } => SystemView {
            process: crate::process::ProcessView {
                pending: state.process.pending.insert(id, waiter),
                ..state.process
            },
            log: state.log.with_serialized(">>>"@, json),
            ..state
        },
        Occurrence::Failure { id } => SystemView {
            process: crate::process::ProcessView {
                pending: state.process.pending.remove(id),
                ..state.process
            },
            ..state
        },
        Occurrence::Notification { json } => SystemView {
            log: state.log.with_serialized(">>>"@, json),
            ..state
        },
        Occurrence::Subscription { stream } => SystemView {
            process: crate::process::ProcessView { event_stream: Some(stream), ..state.process },
            ..state
        },
        Occurrence::Stderr { raw } => SystemView { log: state.log.with_stderr(raw), ..state },
    }
}

/// The state after some occurrences, one after the other.
pub open spec fn then_all<T, N, W, S, A, E>(
    state: SystemView<W, S, A>,
    occurrences: Seq<Occurrence<T, N, W, S, A, E>>,
) -> SystemView<W, S, A>
    decreases occurrences.len(),
{
    if occurrences.len() == 0 {
        state
    } else {
        then(then_all(state, occurrences.drop_last()), occurrences.last())
    }
}

/// Whatever happens that does not concern an identifier, its request keeps its
/// waiter, or its lack of one.
pub proof fn law_unrelated_traffic_keeps_the_waiter<T, N, W, S, A, E>(
    state: SystemView<W, S, A>,
    occurrences: Seq<Occurrence<T, N, W, S, A, E>>,
    id: RequestIdView,
)
    requires
        forall|i: int| 0 <= i < occurrences.len() ==> !(#[trigger] occurrences[i]).concerns(id),
    ensures
        then_all(state, occurrences).process.pending.contains_key(id)
            == state.process.pending.contains_key(id),
        state.process.pending.contains_key(id) ==> then_all(state, occurrences).process.pending[id]
            == state.process.pending[id],
    decreases occurrences.len(),
{
    if occurrences.len() > 0 {
        let before = occurrences.drop_last();
        assert forall|i: int| 0 <= i < before.len() implies !(#[trigger] before[i]).concerns(
            id,
        ) by {
            assert(before[i] == occurrences[i]);
        }
        law_unrelated_traffic_keeps_the_waiter(state, before, id);
        assert(!occurrences[occurrences.len() - 1].concerns(id));
    }
}

/// The occurrence at `index` starts a request with identifier `id`, and nothing
/// later concerns that identifier.
pub open spec fn is_open_call<T, N, W, S, A, E>(
    occurrences: Seq<Occurrence<T, N, W, S, A, E>>,
    id: RequestIdView,
    index: int,
) -> bool {
    &&& 0 <= index < occurrences.len()
    &&& occurrences[index] is Call
    &&& occurrences[index]->Call_id == id
    &&& forall|later: int|
        index < later < occurrences.len() ==> !(#[trigger] occurrences[later]).concerns(id)
}

/// The table holds exactly the requests that have been started and have since
/// been neither answered nor given up nor displaced, while the event loop has not
/// ended, each with its own waiter.
pub proof fn law_table_holds_the_open_calls<T, N, W, S, A, E>(
    state: SystemView<W, S, A>,
    occurrences: Seq<Occurrence<T, N, W, S, A, E>>,
    id: RequestIdView,
)
    requires
        !state.process.pending.contains_key(id),
    ensures
        then_all(state, occurrences).process.pending.contains_key(id) <==> exists|index: int|
            is_open_call(occurrences, id, index),
        forall|index: int| #[trigger]
            is_open_call(occurrences, id, index) ==> then_all(state, occurrences).process.pending[id]
                == occurrences[index]->waiter,
    decreases occurrences.len(),
{
    if occurrences.len() > 0 {
        let before = occurrences.drop_last();
        let last = occurrences.last();
        let end = occurrences.len() - 1;
        law_table_holds_the_open_calls(state, before, id);
        if last.concerns(id) {
            assert forall|index: int| #[trigger] is_open_call(occurrences, id, index) implies index
                == end by {
                if index < end {
                    assert(!occurrences[end].concerns(id));
                }
            }
            if last is Call {
                assert(is_open_call(occurrences, id, end));
            }
        } else {
            assert forall|index: int| #[trigger] is_open_call(occurrences, id, index) implies (
            index < end && is_open_call(before, id, index)) by {
                assert(occurrences[index].concerns(id));
                assert forall|later: int| index < later < before.len() implies !(
                #[trigger] before[later]).concerns(id) by {
                    assert(before[later] == occurrences[later]);
                }
            }
            assert forall|index: int| #[trigger] is_open_call(before, id, index) implies is_open_call(
                occurrences,
                id,
                index,
            ) by {
                assert forall|later: int| index < later < occurrences.len() implies !(
                #[trigger] occurrences[later]).concerns(id) by {
                    if later < end {
                        assert(before[later] == occurrences[later]);
                    }
                }
            }
            if then_all(state, before).process.pending.contains_key(id) {
                let index = choose|index: int| is_open_call(before, id, index);
                assert(is_open_call(occurrences, id, index));
            }
        }
    }
}

/// A response reaches the waiter of the request that it answers, whatever else
/// has happened since the request was started, and takes the waiter out of the
/// table.
pub proof fn law_response_reaches_its_caller<T, N, W, S, A, E>(
    state: SystemView<W, S, A>,
    id: RequestIdView,
    waiter: W,
    json: Option<Seq<char>>,
    occurrences: Seq<Occurrence<T, N, W, S, A, E>>,
    response: ServerMessage<N>,
    serialized: Option<Seq<char>>,
)
    requires
        forall|i: int| 0 <= i < occurrences.len() ==> !(#[trigger] occurrences[i]).concerns(id),
        response.kind matches MessageKind::Response { id: answered } && answered@ == id,
    ensures
        ({
            let started = then(
                state,
                Occurrence::<T, N, W, S, A, E>::Call { id, waiter, json },
            );
            let waiting = then_all(started, occurrences);
            &&& waiting.route::<T, N, E>(response) == Action::<T, N, W, S, A, E>::Reply {
                waiter,
                message: response.message,
            }
            &&& !waiting.after_message(response, serialized).process.pending.contains_key(id)
        }),
{
    let started = then(state, Occurrence::<T, N, W, S, A, E>::Call { id, waiter, json });
    law_unrelated_traffic_keeps_the_waiter(started, occurrences, id);
}

/// A second response to the same request goes nowhere and changes nothing but
/// the log, as does a response to a request that nobody has sent.
pub proof fn law_response_is_delivered_once<T, N, W, S, A, E>(
    state: SystemView<W, S, A>,
    first: ServerMessage<N>,
    second: ServerMessage<N>,
    first_json: Option<Seq<char>>,
    second_json: Option<Seq<char>>,
)
    requires
        first.kind matches MessageKind::Response { id: a } && second.kind
            matches MessageKind::Response { id: b } && a@ == b@,
    ensures
        ({
            let answered = state.after_message(first, first_json);
            &&& answered.route::<T, N, E>(second) == Action::<T, N, W, S, A, E>::Wait
            &&& answered.after_message(second, second_json).process == answered.process
        }),
        state.route::<T, N, E>(first) == Action::<T, N, W, S, A, E>::Wait
            ==> state.after_message(first, first_json).process == state.process,
{
    if let MessageKind::Response { id } = first.kind {
        let removed = state.process.pending.remove(id@);
        assert(removed.remove(id@) =~= removed);
        if !state.process.pending.contains_key(id@) {
            assert(removed =~= state.process.pending);
        }
    }
}

/// A request that is given up leaves the table without its identifier, and as it
/// was if the identifier was not in use.
pub proof fn law_failed_call_leaves_nothing_behind<T, N, W, S, A, E>(
    state: SystemView<W, S, A>,
    id: RequestIdView,
    waiter: W,
    json: Option<Seq<char>>,
)
    ensures
        ({
            let started = then(
                state,
                Occurrence::<T, N, W, S, A, E>::Call { id, waiter, json },
            );
            let given_up = then(started, Occurrence::<T, N, W, S, A, E>::Failure { id });
            &&& given_up.process.pending == state.process.pending.remove(id)
            &&& !state.process.pending.contains_key(id) ==> given_up.process == state.process
        }),
{
    let pending = state.process.pending;
    assert(pending.insert(id, waiter).remove(id) =~= pending.remove(id));
    if !pending.contains_key(id) {
        assert(pending.remove(id) =~= pending);
    }
}

/// A request whose identifier is in use takes the place of the earlier one. When
/// the earlier caller then gives up, the later one loses its place too.
pub proof fn law_reused_identifier_displaces<T, N, W, S, A, E>(
    state: SystemView<W, S, A>,
    id: RequestIdView,
    earlier: W,
    later: W,
    earlier_json: Option<Seq<char>>,
    later_json: Option<Seq<char>>,
)
    ensures
        ({
            let first = then(
                state,
                Occurrence::<T, N, W, S, A, E>::Call { id, waiter: earlier, json: earlier_json },
            );
            let second = then(
                first,
                Occurrence::<T, N, W, S, A, E>::Call { id, waiter: later, json: later_json },
            );
            let given_up = then(second, Occurrence::<T, N, W, S, A, E>::Failure { id });
            &&& second.process.pending == state.process.pending.insert(id, later)
            &&& !given_up.process.pending.contains_key(id)
        }),
{
    let pending = state.process.pending;
    assert(pending.insert(id, earlier).insert(id, later) =~= pending.insert(id, later));
}

/// The event loop never enters a request into the table, and never gives one
/// another waiter.
pub proof fn law_steps_only_release_waiters<T, N, W, S, A, E>(
    state: SystemView<W, S, A>,
    event: Event<T, N, A, E>,
)
    ensures
        state.after(event).process.pending.submap_of(state.process.pending),
{
}

/// When the event loop ends, no request waits any longer.
pub proof fn law_ending_releases_every_waiter<T, N, W, S, A, E>(
    state: SystemView<W, S, A>,
    event: Event<T, N, A, E>,
)
    requires
        state.phase.accepts(event),
        state.after(event).phase is Stopped,
    ensures
        state.after(event).process.pending == Map::<RequestIdView, W>::empty(),
{
}

/// The event loop ends exactly where the action says so, and nothing happens to
/// it after that.
pub proof fn law_the_end_is_final<T, N, W, S, A, E>(
    state: SystemView<W, S, A>,
    event: Event<T, N, A, E>,
    later: Event<T, N, A, E>,
)
    requires
        state.phase.accepts(event),
    ensures
        state.after(event).phase is Stopped <==> (state.action::<T, N, E>(event) is Stop
            || state.action::<T, N, E>(event) is Answer),
        state.after(event).phase is Stopped ==> !state.after(event).phase.accepts(later),
{
}

/// The action tells what the event loop waits for next: the transport to send,
/// the transport to close, or whatever comes first.
pub proof fn law_action_tells_the_phase<T, N, W, S, A, E>(
    state: SystemView<W, S, A>,
    event: Event<T, N, A, E>,
)
    requires
        state.phase.accepts(event),
    ensures
        state.action::<T, N, E>(event) is Send <==> state.after(event).phase is Sending,
        state.action::<T, N, E>(event) is Close <==> state.after(event).phase is Closing,
        (state.action::<T, N, E>(event) is Wait || state.action::<T, N, E>(event) is Reply
            || state.action::<T, N, E>(event) is Publish) <==> state.after(event).phase is Running,
{
}

/// Receiving is sequential: a message is taken in only while nothing is being
/// sent or closed, and the next one only after it has been dealt with.
pub proof fn law_receiving_is_sequential<T, N, W, S, A, E>(
    state: SystemView<W, S, A>,
    incoming: crate::driver::Incoming<N>,
    next: Option<crate::driver::Incoming<N>>,
)
    ensures
        state.phase.accepts::<T, N, E>(Event::Received(Some(incoming))) <==> state.phase is Running,
        state.phase is Running ==> {
            let taken = state.after::<T, N, E>(Event::Received(Some(incoming)));
            &&& taken.phase is Running
            &&& taken.phase.accepts::<T, N, E>(Event::Received(next))
        },
{
}

/// A message that the transport sends leaves the process and the log alone, and
/// the event loop goes on where it was.
pub proof fn law_sending_changes_nothing_else<T, N, W, S, A, E>(
    state: SystemView<W, S, A>,
    item: T,
)
    requires
        state.phase is Running,
    ensures
        state.action::<T, N, E>(Event::Outgoing(item)) == Action::<T, N, W, S, A, E>::Send(item),
        ({
            let sending = state.after::<T, N, E>(Event::Outgoing(item));
            &&& sending.phase.accepts::<T, N, E>(Event::Sent(Ok(())))
            &&& sending.after::<T, N, E>(Event::Sent(Ok(()))) == state
        }),
{
}

/// Whoever asks to stop is answered with the error of closing the transport, if
/// there was one, after every waiter has been released.
pub proof fn law_stop_is_answered<T, N, W, S, A, E>(
    state: SystemView<W, S, A>,
    answer: A,
    closed: Result<(), crate::driver::Failure<E>>,
)
    requires
        state.phase is Running,
    ensures
        ({
            let closing = state.after::<T, N, E>(Event::Shutdown(answer));
            &&& state.action::<T, N, E>(Event::Shutdown(answer)) == Action::<
                T,
                N,
                W,
                S,
                A,
                E,
            >::Close
            &&& closing.phase.accepts::<T, N, E>(Event::Closed(closed))
            &&& closing.process == state.process
            &&& closing.action::<T, N, E>(Event::Closed(closed)) == Action::<
                T,
                N,
                W,
                S,
                A,
                E,
            >::Answer {
                answer,
                error: match closed {
                    Ok(_) => None,
                    Err(failure) => Some(failure.error),
                },
            }
            &&& closing.after::<T, N, E>(Event::Closed(closed)).process.pending == Map::<
                RequestIdView,
                W,
            >::empty()
        }),
{
}

/// A message that is no response, an error too, goes to whoever subscribed last,
/// and touches no request.
pub proof fn law_last_subscriber_receives_events<T, N, W, S, A, E>(
    state: SystemView<W, S, A>,
    earlier: Arc<S>,
    later: Arc<S>,
    message: ServerMessage<N>,
    json: Option<Seq<char>>,
)
    requires
        !(message.kind is Response),
    ensures
        ({
            let once = then(
                state,
                Occurrence::<T, N, W, S, A, E>::Subscription { stream: earlier },
            );
            let twice = then(
                once,
                Occurrence::<T, N, W, S, A, E>::Subscription { stream: later },
            );
            &&& twice.route::<T, N, E>(message) == Action::<T, N, W, S, A, E>::Publish {
                stream: later,
                message: message.message,
            }
            &&& twice.after_message(message, json).process == twice.process
        }),
        state.after_message(message, json).process == state.process,
{
}

/// Whatever happens, the log stays within its limits, and its capacity and the
/// command's label stay what they were.
pub proof fn law_log_stays_well_formed<T, N, W, S, A, E>(
    state: SystemView<W, S, A>,
    occurrences: Seq<Occurrence<T, N, W, S, A, E>>,
)
    requires
        state.log.well_formed(),
    ensures
        then_all(state, occurrences).log.well_formed(),
        then_all(state, occurrences).log.capacity == state.log.capacity,
        then_all(state, occurrences).process.command_label == state.process.command_label,
    decreases occurrences.len(),
{
    if occurrences.len() > 0 {
        law_log_stays_well_formed(state, occurrences.drop_last());
        let before = then_all(state, occurrences.drop_last()).log;
        assert forall|raw: Seq<char>| #[trigger] before.with_stdout(raw).well_formed() by {
            crate::logs::lemma_recorded_well_formed(before.stdout, before.capacity, raw);
        }
        assert forall|raw: Seq<char>| #[trigger] before.with_stderr(raw).well_formed() by {
            crate::logs::lemma_recorded_well_formed(before.stderr, before.capacity, raw);
        }
        let after = then_all(state, occurrences).log;
        assert(after == before || (exists|raw: Seq<char>|
            after == #[trigger] before.with_stdout(raw)) || (exists|raw: Seq<char>|
            after == #[trigger] before.with_stderr(raw)));
    }
}

} // verus!
