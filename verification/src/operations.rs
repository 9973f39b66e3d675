//! What each operation does, in terms of what goes in and what comes out.
//!
//! The statements here use the fields of identifiers, logs and states, texts
//! written out, and the operations of sequences and maps. Where a statement is
//! about an executable function, it speaks of every result that the function's
//! contract allows.
use std::sync::Arc;
use vstd::prelude::*;

use crate::driver::{
    Action, Driver, Event, Failure, Incoming, MessageKind, Phase, ServerMessage, SystemView,
};
use crate::logs::{LogView, ProcessLogs, ReadFailed};
use crate::pending::{PendingRequests, RequestId, RequestIdView};
use crate::process::{ChannelClosed, PendingCall, Process, UpstreamError};
use crate::text::trim_line_ends;

verus! {

// Identifiers.

/// Identifiers are told apart completely: two numbers stand for the same
/// identifier exactly if they are equal, two texts exactly if they are the same
/// character by character, and a number and a text never do.
pub proof fn law_identifiers_are_told_apart(a: RequestId, b: RequestId)
    ensures
        a@ == b@ <==> match (a, b) {
            (RequestId::Number(x), RequestId::Number(y)) => x == y,
            (RequestId::Text(x), RequestId::Text(y)) => x@ == y@,
            _ => false,
        },
{
}

/// `same` compares whole identifiers, and `duplicate` copies them whole.
pub proof fn law_same_compares_whole_identifiers()
    ensures
        forall|a: RequestId, b: RequestId, result: bool|
            #[trigger] call_ensures(RequestId::same, (&a, &b), result) ==> (result <==> match (
                a,
                b,
            ) {
                (RequestId::Number(x), RequestId::Number(y)) => x == y,
                (RequestId::Text(x), RequestId::Text(y)) => x@ == y@,
                _ => false,
            }),
        forall|a: RequestId, result: RequestId|
            #[trigger] call_ensures(RequestId::duplicate, (&a,), result) ==> match (a, result) {
                (RequestId::Number(x), RequestId::Number(y)) => x == y,
                (RequestId::Text(x), RequestId::Text(y)) => x@ == y@,
                _ => false,
            },
{
}

/// Of two requests with different identifiers, a response reaches the one whose
/// identifier it carries, in whichever order they were started, and the other one
/// keeps waiting.
pub proof fn law_response_reaches_the_right_one_of_two<T, N, W, S, A, E>(
    state: SystemView<W, S, A>,
    a: RequestId,
    b: RequestId,
    a_waiter: W,
    b_waiter: W,
    answered: RequestId,
    message: N,
    json: Option<Seq<char>>,
)
    requires
        match (a, answered) {
            (RequestId::Number(x), RequestId::Number(y)) => x == y,
            (RequestId::Text(x), RequestId::Text(y)) => x@ == y@,
            _ => false,
        },
        !match (a, b) {
            (RequestId::Number(x), RequestId::Number(y)) => x == y,
            (RequestId::Text(x), RequestId::Text(y)) => x@ == y@,
            _ => false,
        },
        state.process.pending.contains_key(a@) && state.process.pending[a@] == a_waiter,
        state.process.pending.contains_key(b@) && state.process.pending[b@] == b_waiter,
    ensures
        ({
            let response = ServerMessage {
                kind: MessageKind::Response { id: answered },
                message,
            };
            let after = state.after_message(response, json).process.pending;
            &&& state.route::<T, N, E>(response) == Action::<T, N, W, S, A, E>::Reply {
                waiter: a_waiter,
                message,
            }
            &&& !after.contains_key(a@)
            &&& after.contains_key(b@)
            &&& after[b@] == b_waiter
        }),
{
}

/// The table is a map: entering, taking out and clearing do to it what they do to
/// a map, and entering and taking out give back what stood there.
pub proof fn law_table_is_a_map<W>()
    ensures
        forall|result: PendingRequests<W>|
            #[trigger] call_ensures(PendingRequests::<W>::new, (), result) ==> result@ == Map::<
                RequestIdView,
                W,
            >::empty(),
        forall|table: &mut PendingRequests<W>, id: RequestId, waiter: W, result: Option<W>|
            #[trigger] call_ensures(PendingRequests::<W>::insert, (table, id, waiter), result) ==> {
                &&& final(table)@ == (*table)@.insert(id@, waiter)
                &&& result is Some <==> (*table)@.contains_key(id@)
                &&& result matches Some(waiter) ==> waiter == (*table)@[id@]
            },
        forall|table: &mut PendingRequests<W>, id: RequestId, result: Option<W>|
            #[trigger] call_ensures(PendingRequests::<W>::remove, (table, &id), result) ==> {
                &&& final(table)@ == (*table)@.remove(id@)
                &&& result is Some <==> (*table)@.contains_key(id@)
                &&& result matches Some(waiter) ==> waiter == (*table)@[id@]
            },
        forall|table: &mut PendingRequests<W>|
            #[trigger] call_ensures(PendingRequests::<W>::clear, (table,), ()) ==> final(table)@
                == Map::<RequestIdView, W>::empty(),
        forall|table: &mut PendingRequests<W>|
            #[trigger] call_ensures(crate::pending::clear_pending_requests::<W>, (table,), ())
                ==> final(table)@ == Map::<RequestIdView, W>::empty(),
{
}

// Text.

/// Trimming a line takes off the carriage returns and line feeds at its end, all
/// of them, and nothing else.
pub proof fn law_trimming_takes_off_the_line_ends(kept: Seq<char>, ends: Seq<char>)
    requires
        forall|i: int| 0 <= i < ends.len() ==> #[trigger] ends[i] == '\n' || ends[i] == '\r',
        kept.len() > 0 ==> kept.last() != '\n' && kept.last() != '\r',
    ensures
        crate::text::trimmed(kept + ends) == kept,
    decreases ends.len(),
{
    if ends.len() == 0 {
        assert(kept + ends =~= kept);
    } else {
        assert(ends[ends.len() - 1] == ends.last());
        assert((kept + ends).last() == ends.last());
        assert((kept + ends).drop_last() =~= kept + ends.drop_last());
        law_trimming_takes_off_the_line_ends(kept, ends.drop_last());
    }
}

/// What `trim_line_ends` returns is the beginning of the line up to the line ends
/// at its end.
pub proof fn law_trim_line_ends_keeps_the_beginning()
    ensures
        forall|line: &str, result: String|
            #[trigger] call_ensures(trim_line_ends, (line,), result) ==> {
                &&& result@.len() <= line@.len()
                &&& result@ == line@.take(result@.len() as int)
                &&& forall|i: int|
                    result@.len() <= i < line@.len() ==> #[trigger] line@[i] == '\n' || line@[i]
                        == '\r'
                &&& result@.len() > 0 ==> result@.last() != '\n' && result@.last() != '\r'
            },
{
    assert forall|line: &str, result: String| #[trigger]
        call_ensures(trim_line_ends, (line,), result) implies {
        &&& result@.len() <= line@.len()
        &&& result@ == line@.take(result@.len() as int)
        &&& forall|i: int|
            result@.len() <= i < line@.len() ==> #[trigger] line@[i] == '\n' || line@[i] == '\r'
        &&& result@.len() > 0 ==> result@.last() != '\n' && result@.last() != '\r'
    } by {
        crate::text::lemma_trimmed_shape(line@);
    }
}

/// Lines joined with line feeds and ended by one are the lines each ended by a
/// line feed, one after the other.
proof fn lemma_joined_lines(lines: Seq<Seq<char>>)
    requires
        lines.len() > 0,
    ensures
        crate::text::joined(lines, "\n"@).push('\n') == lines.map_values(
            |line: Seq<char>| line.push('\n'),
        ).flatten(),
    decreases lines.len(),
{
    reveal_strlit("\n");
    let ended = lines.map_values(|line: Seq<char>| line.push('\n'));
    if lines.len() == 1 {
        ended.lemma_flatten_one_element();
        assert(crate::text::joined(lines, "\n"@).push('\n') =~= ended.first());
    } else {
        let rest = lines.drop_last();
        lemma_joined_lines(rest);
        let ended_rest = rest.map_values(|line: Seq<char>| line.push('\n'));
        assert(ended =~= ended_rest.push(lines.last().push('\n')));
        ended_rest.lemma_flatten_push(lines.last().push('\n'));
        assert(crate::text::joined(lines, "\n"@).push('\n') =~= crate::text::joined(
            rest,
            "\n"@,
        ).push('\n') + lines.last().push('\n'));
    }
}

// The log.

/// A text of nothing but line ends is recorded on neither stream.
pub proof fn law_blank_text_is_not_recorded(log: LogView, ends: Seq<char>)
    requires
        forall|i: int| 0 <= i < ends.len() ==> #[trigger] ends[i] == '\n' || ends[i] == '\r',
    ensures
        log.with_stdout(ends) == log,
        log.with_stderr(ends) == log,
{
    assert(Seq::<char>::empty() + ends =~= ends);
    law_trimming_takes_off_the_line_ends(Seq::empty(), ends);
}

/// Any other text leaves one new last line of standard output, the text without
/// the line ends at its end, behind the lines that were there. Only a queue that
/// holds exactly as many lines as its capacity gives up its oldest one.
pub proof fn law_stdout_gains_the_line(log: LogView, kept: Seq<char>, ends: Seq<char>)
    requires
        forall|i: int| 0 <= i < ends.len() ==> #[trigger] ends[i] == '\n' || ends[i] == '\r',
        kept.len() > 0,
        kept.last() != '\n' && kept.last() != '\r',
    ensures
        ({
            let after = log.with_stdout(kept + ends);
            &&& after.stdout.len() > 0
            &&& after.stdout.last() == kept
            &&& 0 < log.stdout.len() == log.capacity ==> after.stdout.drop_last()
                == log.stdout.skip(1)
            &&& !(0 < log.stdout.len() == log.capacity) ==> after.stdout.drop_last() == log.stdout
            &&& after.stderr == log.stderr
            &&& after.capacity == log.capacity
        }),
{
    law_trimming_takes_off_the_line_ends(kept, ends);
    let after = log.with_stdout(kept + ends);
    if 0 < log.stdout.len() == log.capacity {
        assert(after.stdout.drop_last() =~= log.stdout.skip(1));
    } else {
        assert(after.stdout.drop_last() =~= log.stdout);
    }
}

/// The same on standard error.
pub proof fn law_stderr_gains_the_line(log: LogView, kept: Seq<char>, ends: Seq<char>)
    requires
        forall|i: int| 0 <= i < ends.len() ==> #[trigger] ends[i] == '\n' || ends[i] == '\r',
        kept.len() > 0,
        kept.last() != '\n' && kept.last() != '\r',
    ensures
        ({
            let after = log.with_stderr(kept + ends);
            &&& after.stderr.len() > 0
            &&& after.stderr.last() == kept
            &&& 0 < log.stderr.len() == log.capacity ==> after.stderr.drop_last()
                == log.stderr.skip(1)
            &&& !(0 < log.stderr.len() == log.capacity) ==> after.stderr.drop_last() == log.stderr
            &&& after.stdout == log.stdout
            &&& after.capacity == log.capacity
        }),
{
    law_trimming_takes_off_the_line_ends(kept, ends);
    let after = log.with_stderr(kept + ends);
    if 0 < log.stderr.len() == log.capacity {
        assert(after.stderr.drop_last() =~= log.stderr.skip(1));
    } else {
        assert(after.stderr.drop_last() =~= log.stderr);
    }
}

/// Whatever holds a character other than a line end is recorded, up to at least
/// that character: the new last line is the beginning of the text, and what is left
/// out are the line ends at its end.
pub proof fn law_every_other_text_is_recorded(log: LogView, raw: Seq<char>, index: int)
    requires
        0 <= index < raw.len(),
        raw[index] != '\n' && raw[index] != '\r',
    ensures
        ({
            let out = log.with_stdout(raw).stdout;
            let err = log.with_stderr(raw).stderr;
            &&& out.len() > 0 && err.len() > 0
            &&& out.last() == err.last()
            &&& index < out.last().len() <= raw.len()
            &&& out.last() == raw.take(out.last().len() as int)
            &&& forall|i: int|
                out.last().len() <= i < raw.len() ==> #[trigger] raw[i] == '\n' || raw[i] == '\r'
            &&& out.last().last() != '\n' && out.last().last() != '\r'
        }),
{
    crate::text::lemma_trimmed_shape(raw);
    let kept = crate::text::trimmed(raw);
    assert(index < kept.len());
    assert(log.with_stdout(raw).stdout.last() == kept);
    assert(log.with_stderr(raw).stderr.last() == kept);
}

/// After any number of texts has been recorded on standard error, it holds the
/// latest of them, oldest first and each without the line ends at its end, as many
/// as the capacity allows, behind what is left of the lines before. The texts are
/// those that are not blank; blank ones change nothing.
pub proof fn law_stderr_keeps_the_latest_lines(
    logs: Seq<LogView>,
    kept: Seq<Seq<char>>,
    ends: Seq<Seq<char>>,
)
    requires
        logs.len() == kept.len() + 1,
        ends.len() == kept.len(),
        0 < logs[0].capacity,
        logs[0].stderr.len() <= logs[0].capacity,
        forall|i: int|
            0 <= i < kept.len() ==> #[trigger] kept[i].len() > 0 && kept[i].last() != '\n'
                && kept[i].last() != '\r',
        forall|i: int, j: int|
            0 <= i < ends.len() && 0 <= j < ends[i].len() ==> #[trigger] ends[i][j] == '\n'
                || ends[i][j] == '\r',
        forall|i: int|
            0 <= i < kept.len() ==> logs[i + 1] == (#[trigger] logs[i]).with_stderr(
                kept[i] + ends[i],
            ),
    ensures
        ({
            let all = logs[0].stderr + kept;
            let held = logs.last().stderr;
            &&& held.len() == if all.len() <= logs[0].capacity {
                all.len()
            } else {
                logs[0].capacity
            }
            &&& held == all.skip(all.len() - held.len())
            &&& logs.last().stdout == logs[0].stdout
            &&& logs.last().capacity == logs[0].capacity
        }),
    decreases kept.len(),
{
    if kept.len() == 0 {
        assert(logs[0].stderr + kept =~= logs[0].stderr);
        assert(logs[0].stderr.skip(0) =~= logs[0].stderr);
    } else {
        let last = kept.len() - 1;
        let earlier = logs.drop_last();
        assert(earlier.last() == logs[last]);
        assert forall|i: int| 0 <= i < kept.drop_last().len() implies earlier[i + 1] == (
        #[trigger] earlier[i]).with_stderr(kept.drop_last()[i] + ends.drop_last()[i]) by {
            assert(logs[i + 1] == logs[i].with_stderr(kept[i] + ends[i]));
        }
        assert forall|i: int| 0 <= i < kept.drop_last().len() implies #[trigger]
            kept.drop_last()[i].len() > 0 && kept.drop_last()[i].last() != '\n'
            && kept.drop_last()[i].last() != '\r' by {
            assert(kept[i].len() > 0);
        }
        law_stderr_keeps_the_latest_lines(earlier, kept.drop_last(), ends.drop_last());
        assert(logs[last + 1] == logs[last].with_stderr(kept[last] + ends[last]));
        assert(kept[last].len() > 0);
        law_stderr_gains_the_line(logs[last], kept[last], ends[last]);
        let all = logs[0].stderr + kept;
        let before = logs[0].stderr + kept.drop_last();
        assert(all =~= before.push(kept[last]));
        let held = logs.last().stderr;
        assert(held =~= held.drop_last().push(kept[last]));
        assert(held =~= all.skip(all.len() - held.len()));
    }
}

/// The same on standard output.
pub proof fn law_stdout_keeps_the_latest_lines(
    logs: Seq<LogView>,
    kept: Seq<Seq<char>>,
    ends: Seq<Seq<char>>,
)
    requires
        logs.len() == kept.len() + 1,
        ends.len() == kept.len(),
        0 < logs[0].capacity,
        logs[0].stdout.len() <= logs[0].capacity,
        forall|i: int|
            0 <= i < kept.len() ==> #[trigger] kept[i].len() > 0 && kept[i].last() != '\n'
                && kept[i].last() != '\r',
        forall|i: int, j: int|
            0 <= i < ends.len() && 0 <= j < ends[i].len() ==> #[trigger] ends[i][j] == '\n'
                || ends[i][j] == '\r',
        forall|i: int|
            0 <= i < kept.len() ==> logs[i + 1] == (#[trigger] logs[i]).with_stdout(
                kept[i] + ends[i],
            ),
    ensures
        ({
            let all = logs[0].stdout + kept;
            let held = logs.last().stdout;
            &&& held.len() == if all.len() <= logs[0].capacity {
                all.len()
            } else {
                logs[0].capacity
            }
            &&& held == all.skip(all.len() - held.len())
            &&& logs.last().stderr == logs[0].stderr
            &&& logs.last().capacity == logs[0].capacity
        }),
    decreases kept.len(),
{
    if kept.len() == 0 {
        assert(logs[0].stdout + kept =~= logs[0].stdout);
        assert(logs[0].stdout.skip(0) =~= logs[0].stdout);
    } else {
        let last = kept.len() - 1;
        let earlier = logs.drop_last();
        assert(earlier.last() == logs[last]);
        assert forall|i: int| 0 <= i < kept.drop_last().len() implies earlier[i + 1] == (
        #[trigger] earlier[i]).with_stdout(kept.drop_last()[i] + ends.drop_last()[i]) by {
            assert(logs[i + 1] == logs[i].with_stdout(kept[i] + ends[i]));
        }
        assert forall|i: int| 0 <= i < kept.drop_last().len() implies #[trigger]
            kept.drop_last()[i].len() > 0 && kept.drop_last()[i].last() != '\n'
            && kept.drop_last()[i].last() != '\r' by {
            assert(kept[i].len() > 0);
        }
        law_stdout_keeps_the_latest_lines(earlier, kept.drop_last(), ends.drop_last());
        assert(logs[last + 1] == logs[last].with_stdout(kept[last] + ends[last]));
        assert(kept[last].len() > 0);
        law_stdout_gains_the_line(logs[last], kept[last], ends[last]);
        let all = logs[0].stdout + kept;
        let before = logs[0].stdout + kept.drop_last();
        assert(all =~= before.push(kept[last]));
        let held = logs.last().stdout;
        assert(held =~= held.drop_last().push(kept[last]));
        assert(held =~= all.skip(all.len() - held.len()));
    }
}

/// Recording a message is recording its prefix, a space and its text as one line
/// of standard output, and a message without a text changes nothing. The line of a
/// message is those same characters, whatever the text ends in.
pub proof fn law_messages_are_recorded_as_stdout(log: LogView, prefix: Seq<char>, text: Seq<char>)
    ensures
        log.with_serialized(prefix, None) == log,
        log.with_serialized(prefix, Some(text)) == log.with_stdout(prefix + seq![' '] + text),
        ({
            let after = log.with_message_line(prefix, text);
            &&& after.stdout.len() > 0
            &&& after.stdout.last() == prefix + seq![' '] + text
            &&& 0 < log.stdout.len() == log.capacity ==> after.stdout.drop_last()
                == log.stdout.skip(1)
            &&& !(0 < log.stdout.len() == log.capacity) ==> after.stdout.drop_last() == log.stdout
            &&& after.stderr == log.stderr
            &&& after.capacity == log.capacity
        }),
{
    reveal_strlit(" ");
    assert(" "@ =~= seq![' ']);
    let after = log.with_message_line(prefix, text);
    if 0 < log.stdout.len() == log.capacity {
        assert(after.stdout.drop_last() =~= log.stdout.skip(1));
    } else {
        assert(after.stdout.drop_last() =~= log.stdout);
    }
}

/// The text of a string that is there is its characters.
pub proof fn law_texts_are_the_characters(string: String, error: serde_json::Error)
    ensures
        crate::logs::text_of(Some(string)) == Some(string@),
        crate::logs::text_of(None) == None::<Seq<char>>,
        crate::wire::json_of(Ok(string)) == Some(string@),
        crate::wire::json_of(Err(error)) == None::<Seq<char>>,
{
}

/// A text that closes an object ends in a closing brace, so in no line end.
pub proof fn law_object_texts_end_in_a_brace(text: Seq<char>)
    ensures
        crate::wire::closes_object(text) <==> exists|rest: Seq<char>| text == #[trigger] rest.push(
            '}',
        ),
{
    if crate::wire::closes_object(text) {
        assert(text =~= text.drop_last().push('}'));
    }
}

/// The formatted log lists the lines of standard error under `stderr:` and then
/// those of standard output under `stdout:`, each stream oldest first and each
/// line on its own, and leaves out a stream without lines. With a line feed behind
/// it, it is the titles and lines each followed by a line feed.
pub proof fn law_formatted_lists_each_stream_under_its_name(log: LogView)
    ensures
        log.stdout.len() == 0 && log.stderr.len() == 0 ==> log.formatted()
            == "no stdout/stderr captured yet"@,
        log.stdout.len() > 0 || log.stderr.len() > 0 ==> {
            let errors = if log.stderr.len() > 0 {
                seq!["stderr:"@] + log.stderr
            } else {
                Seq::empty()
            };
            let outputs = if log.stdout.len() > 0 {
                seq!["stdout:"@] + log.stdout
            } else {
                Seq::empty()
            };
            log.formatted().push('\n') == (errors + outputs).map_values(
                |line: Seq<char>| line.push('\n'),
            ).flatten()
        },
{
    reveal_strlit("\n");
    reveal_strlit("stderr:");
    reveal_strlit("stderr:\n");
    reveal_strlit("stdout:");
    reveal_strlit("stdout:\n");
    assert("stderr:\n"@ =~= "stderr:"@.push('\n'));
    assert("stdout:\n"@ =~= "stdout:"@.push('\n'));
    let errors = if log.stderr.len() > 0 {
        seq!["stderr:"@] + log.stderr
    } else {
        Seq::empty()
    };
    let outputs = if log.stdout.len() > 0 {
        seq!["stdout:"@] + log.stdout
    } else {
        Seq::empty()
    };
    let ended_errors = errors.map_values(|line: Seq<char>| line.push('\n'));
    let ended_outputs = outputs.map_values(|line: Seq<char>| line.push('\n'));
    let ended = (errors + outputs).map_values(|line: Seq<char>| line.push('\n'));
    assert(ended =~= ended_errors + ended_outputs);
    vstd::seq_lib::lemma_flatten_concat(ended_errors, ended_outputs);
    if log.stderr.len() > 0 {
        lemma_section("stderr:"@, log.stderr);
    } else {
        assert(ended_errors =~= Seq::empty());
    }
    if log.stdout.len() > 0 {
        lemma_section("stdout:"@, log.stdout);
    } else {
        assert(ended_outputs =~= Seq::empty());
    }
    if log.stderr.len() > 0 && log.stdout.len() > 0 {
        assert(log.formatted().push('\n') =~= crate::logs::section(
            "stderr:\n"@,
            log.stderr,
        ).push('\n') + crate::logs::section("stdout:\n"@, log.stdout).push('\n'));
    } else if log.stderr.len() > 0 || log.stdout.len() > 0 {
        assert(log.formatted().push('\n') =~= ended_errors.flatten() + ended_outputs.flatten());
    }
}

/// A section with a line feed behind it is its title and its lines, each followed
/// by a line feed.
proof fn lemma_section(title: Seq<char>, lines: Seq<Seq<char>>)
    requires
        lines.len() > 0,
    ensures
        crate::logs::section(title.push('\n'), lines).push('\n') == (seq![title]
            + lines).map_values(|line: Seq<char>| line.push('\n')).flatten(),
{
    lemma_joined_lines(lines);
    let ended = (seq![title] + lines).map_values(|line: Seq<char>| line.push('\n'));
    let ended_lines = lines.map_values(|line: Seq<char>| line.push('\n'));
    assert(ended =~= seq![title.push('\n')] + ended_lines);
    vstd::seq_lib::lemma_flatten_concat(seq![title.push('\n')], ended_lines);
    seq![title.push('\n')].lemma_flatten_one_element();
    assert(crate::logs::section(title.push('\n'), lines).push('\n') =~= title.push('\n')
        + crate::text::joined(lines, "\n"@).push('\n'));
}

/// A log is well-formed exactly if no stream holds more lines than its capacity,
/// where that is not zero, and no line is empty or ends in a line end.
pub proof fn law_well_formed_logs_are_bounded(log: LogView)
    ensures
        log.well_formed() <==> {
            &&& log.capacity == 0 || log.stdout.len() <= log.capacity
            &&& log.capacity == 0 || log.stderr.len() <= log.capacity
            &&& forall|i: int|
                0 <= i < log.stdout.len() ==> #[trigger] log.stdout[i].len() > 0
                    && log.stdout[i].last() != '\n' && log.stdout[i].last() != '\r'
            &&& forall|i: int|
                0 <= i < log.stderr.len() ==> #[trigger] log.stderr[i].len() > 0
                    && log.stderr[i].last() != '\n' && log.stderr[i].last() != '\r'
        },
{
    if log.well_formed() {
        assert forall|i: int| 0 <= i < log.stdout.len() implies #[trigger] log.stdout[i].len() > 0
            && log.stdout[i].last() != '\n' && log.stdout[i].last() != '\r' by {
            assert(crate::logs::is_recordable(log.stdout[i]));
        }
        assert forall|i: int| 0 <= i < log.stderr.len() implies #[trigger] log.stderr[i].len() > 0
            && log.stderr[i].last() != '\n' && log.stderr[i].last() != '\r' by {
            assert(crate::logs::is_recordable(log.stderr[i]));
        }
    } else {
        if forall|i: int|
            0 <= i < log.stdout.len() ==> #[trigger] log.stdout[i].len() > 0 && log.stdout[i].last()
                != '\n' && log.stdout[i].last() != '\r' {
            assert forall|i: int| 0 <= i < log.stdout.len() implies crate::logs::is_recordable(
                #[trigger] log.stdout[i],
            ) by {
                assert(log.stdout[i].len() > 0);
            }
        }
        if forall|i: int|
            0 <= i < log.stderr.len() ==> #[trigger] log.stderr[i].len() > 0 && log.stderr[i].last()
                != '\n' && log.stderr[i].last() != '\r' {
            assert forall|i: int| 0 <= i < log.stderr.len() implies crate::logs::is_recordable(
                #[trigger] log.stderr[i],
            ) by {
                assert(log.stderr[i].len() > 0);
            }
        }
    }
}

/// A capacity is allocatable exactly if that many strings of three machine words
/// fit into an allocation.
pub proof fn law_allocatable_capacities(capacity: usize)
    ensures
        usize::BITS == 64 ==> (crate::logs::allocatable(capacity) <==> 24 * capacity <= isize::MAX),
        usize::BITS == 32 ==> (crate::logs::allocatable(capacity) <==> 12 * capacity <= isize::MAX),
{
    if usize::BITS == 64 {
        assert(capacity * 3 * (usize::BITS / 8) == 24 * capacity) by (nonlinear_arith)
            requires
                usize::BITS == 64,
        ;
    }
    if usize::BITS == 32 {
        assert(capacity * 3 * (usize::BITS / 8) == 12 * capacity) by (nonlinear_arith)
            requires
                usize::BITS == 32,
        ;
    }
}

/// A queue takes a string in behind those that it holds, and gives up the oldest
/// one if it holds exactly as many as its capacity.
pub proof fn law_push_appends()
    ensures
        forall|queue: &mut std::collections::VecDeque<String>, capacity: usize, line: String|
            #[trigger] call_ensures(
                crate::logs::ProcessLogInner::push,
                (queue, capacity, line),
                (),
            ) ==> {
                let skipped: int = if 0 < (*queue)@.len() == capacity {
                    1
                } else {
                    0
                };
                &&& final(queue)@.len() == (*queue)@.len() - skipped + 1
                &&& final(queue)@.last()@ == line@
                &&& forall|i: int|
                    0 <= i < (*queue)@.len() - skipped ==> (#[trigger] final(queue)@[i])@
                        == (*queue)@[i + skipped]@
            },
{
    assert forall|
        queue: &mut std::collections::VecDeque<String>,
        capacity: usize,
        line: String,
    | #[trigger]
        call_ensures(crate::logs::ProcessLogInner::push, (queue, capacity, line), ()) implies {
        let skipped: int = if 0 < (*queue)@.len() == capacity {
            1
        } else {
            0
        };
        &&& final(queue)@.len() == (*queue)@.len() - skipped + 1
        &&& final(queue)@.last()@ == line@
        &&& forall|i: int|
            0 <= i < (*queue)@.len() - skipped ==> (#[trigger] final(queue)@[i])@ == (*queue)@[i
                + skipped]@
    } by {
        let before = crate::logs::texts((*queue)@);
        let after = crate::logs::texts(final(queue)@);
        let skipped: int = if 0 < (*queue)@.len() == capacity {
            1
        } else {
            0
        };
        assert(after.len() == final(queue)@.len());
        assert(after.last() == final(queue)@.last()@);
        assert forall|i: int| 0 <= i < (*queue)@.len() - skipped implies (#[trigger] final(queue)@[i])@ == (*queue)@[i + skipped]@ by {
            assert(after[i] == final(queue)@[i]@);
            assert(before[i + skipped] == (*queue)@[i + skipped]@);
        }
    }
}

/// The operations of a log: it starts empty, the recording functions record on
/// the stream that they are named after, reading standard error goes on until
/// nothing is read, and formatting gives the formatted log.
pub proof fn law_log_operations()
    ensures
        forall|capacity: usize, result: ProcessLogs|
            #[trigger] call_ensures(ProcessLogs::new, (capacity,), result) ==> result@.stdout.len()
                == 0 && result@.stderr.len() == 0 && result@.capacity == capacity,
        forall|logs: &mut ProcessLogs, line: &str|
            #[trigger] call_ensures(ProcessLogs::record_stdout_line, (logs, line), ()) ==> final(logs)@ == (*logs)@.with_stdout(line@),
        forall|logs: &mut ProcessLogs, line: &str|
            #[trigger] call_ensures(ProcessLogs::record_stderr_line, (logs, line), ()) ==> final(logs)@ == (*logs)@.with_stderr(line@),
        forall|logs: &mut ProcessLogs, prefix: &str, serialized: Option<String>|
            #[trigger] call_ensures(ProcessLogs::record_serialized, (logs, prefix, serialized), ())
                ==> final(logs)@ == match serialized {
                Some(text) => (*logs)@.with_stdout(prefix@ + " "@ + text@),
                None => (*logs)@,
            },
        forall|logs: &mut ProcessLogs, read: Result<usize, ReadFailed>, line: &str, go_on: bool|
            #[trigger] call_ensures(ProcessLogs::record_stderr_read, (logs, read, line), go_on)
                ==> match read {
                Ok(count) => go_on == (count > 0) && final(logs)@ == if count > 0 {
                    (*logs)@.with_stderr(line@)
                } else {
                    (*logs)@
                },
                Err(_) => !go_on && final(logs)@ == (*logs)@,
            },
        forall|logs: ProcessLogs, result: String|
            #[trigger] call_ensures(ProcessLogs::formatted, (&logs,), result) ==> result@
                == logs@.formatted(),
{
}

// The callers' side.

/// The details of a failed `initialize` request are these six texts one after the
/// other.
pub proof fn law_initialize_details(command_label: Seq<char>, err_msg: Seq<char>, log: LogView)
    ensures
        crate::process::initialize_details(command_label, err_msg, log) == seq![
            "failed to initialize stdio command '"@,
            command_label,
            "': "@,
            err_msg,
            ". Recent MCP stdio output:\n"@,
            log.formatted(),
        ].flatten(),
{
    let parts = seq![
        "failed to initialize stdio command '"@,
        command_label,
        "': "@,
        err_msg,
        ". Recent MCP stdio output:\n"@,
        log.formatted(),
    ];
    parts.lemma_flatten_and_flatten_alt_are_equivalent();
    reveal_with_fuel(Seq::<_>::flatten_alt, 7);
    assert(parts.drop_last() =~= seq![parts[0], parts[1], parts[2], parts[3], parts[4]]);
    assert(parts.drop_last().drop_last() =~= seq![parts[0], parts[1], parts[2], parts[3]]);
    assert(parts.drop_last().drop_last().drop_last() =~= seq![parts[0], parts[1], parts[2]]);
    assert(parts.drop_last().drop_last().drop_last().drop_last() =~= seq![parts[0], parts[1]]);
    assert(parts.drop_last().drop_last().drop_last().drop_last().drop_last() =~= seq![parts[0]]);
    assert(crate::process::initialize_details(command_label, err_msg, log) =~= parts.flatten_alt());
}

/// The failure of a request that is not `initialize` is passed on unchanged,
/// whatever the text of the error, the label and the log.
pub proof fn law_other_failures_pass_unchanged<X>(
    result: UpstreamError<X>,
    err: UpstreamError<X>,
    command_label: Seq<char>,
    err_msg: Seq<char>,
    log: LogView,
)
    ensures
        crate::process::reports(result, err, false, command_label, err_msg, log) <==> result == err,
{
}

/// The failure of an `initialize` request always comes back as such, with its
/// details and nothing of the error that it stands for.
pub proof fn law_initialize_failures_come_with_details<X>(
    result: UpstreamError<X>,
    err: UpstreamError<X>,
    command_label: Seq<char>,
    err_msg: Seq<char>,
    log: LogView,
)
    ensures
        crate::process::reports(result, err, true, command_label, err_msg, log) <==> (
        result matches UpstreamError::InitializeFailed { details } && details@ == seq![
            "failed to initialize stdio command '"@,
            command_label,
            "': "@,
            err_msg,
            ". Recent MCP stdio output:\n"@,
            log.formatted(),
        ].flatten()),
{
    law_initialize_details(command_label, err_msg, log);
}

/// Exactly the method `initialize` starts a session.
pub proof fn law_initialize_is_one_method(method: Seq<char>)
    ensures
        crate::process::is_initialize(method) <==> method == seq![
            'i',
            'n',
            'i',
            't',
            'i',
            'a',
            'l',
            'i',
            'z',
            'e',
        ],
{
    reveal_strlit("initialize");
    assert("initialize"@ =~= seq!['i', 'n', 'i', 't', 'i', 'a', 'l', 'i', 'z', 'e']);
}

/// What becomes of a request that failed: only `initialize` comes back with
/// details; any other comes back as `Send` if it could not be handed over and as
/// `Recv` if no response came. A request that did not fail is passed on.
pub proof fn law_failed_requests_are_reported<W, S, R, X>()
    ensures
        forall|
            process: Process<W, S>,
            logs: ProcessLogs,
            err: UpstreamError<X>,
            err_msg: &str,
            is_initialize: bool,
            result: UpstreamError<X>,
        |
            #[trigger] call_ensures(
                Process::<W, S>::handle_initialize_error::<X>,
                (&process, &logs, err, err_msg, is_initialize),
                result,
            ) ==> {
                &&& !is_initialize ==> result == err
                &&& is_initialize ==> (result matches UpstreamError::InitializeFailed { details }
                    && details@ == crate::process::initialize_details(
                    process@.command_label,
                    err_msg@,
                    logs@,
                ))
            },
        forall|
            process: &mut Process<W, S>,
            logs: ProcessLogs,
            call: PendingCall,
            forwarded: Result<(), ChannelClosed>,
            err_msg: &str,
            result: Result<PendingCall, UpstreamError<X>>,
        |
            #[trigger] call_ensures(
                Process::<W, S>::request_forwarded::<X>,
                (process, &logs, call, forwarded, err_msg),
                result,
            ) ==> {
                &&& forwarded is Ok ==> result == Ok::<PendingCall, UpstreamError<X>>(call)
                    && final(process)@ == (*process)@
                &&& forwarded is Err && !call.is_initialize ==> result == Err::<
                    PendingCall,
                    UpstreamError<X>,
                >(UpstreamError::Send)
                &&& forwarded is Err && call.is_initialize ==> (result matches Err(
                    UpstreamError::InitializeFailed { details },
                ) && details@ == crate::process::initialize_details(
                    (*process)@.command_label,
                    err_msg@,
                    logs@,
                ))
                &&& forwarded is Err ==> final(process)@.pending == (*process)@.pending.remove(
                    call.id@,
                ) && final(process)@.event_stream == (*process)@.event_stream && final(process)@.command_label == (*process)@.command_label
            },
        forall|
            process: &mut Process<W, S>,
            logs: ProcessLogs,
            call: PendingCall,
            reply: Result<R, ChannelClosed>,
            err_msg: &str,
            result: Result<R, UpstreamError<X>>,
        |
            #[trigger] call_ensures(
                Process::<W, S>::reply_received::<R, X>,
                (process, &logs, call, reply, err_msg),
                result,
            ) ==> {
                &&& reply matches Ok(response) ==> result == Ok::<R, UpstreamError<X>>(response)
                    && final(process)@ == (*process)@
                &&& reply is Err && !call.is_initialize ==> result == Err::<R, UpstreamError<X>>(
                    UpstreamError::Recv,
                )
                &&& reply is Err && call.is_initialize ==> (result matches Err(
                    UpstreamError::InitializeFailed { details },
                ) && details@ == crate::process::initialize_details(
                    (*process)@.command_label,
                    err_msg@,
                    logs@,
                ))
                &&& reply is Err ==> final(process)@.pending == (*process)@.pending.remove(call.id@)
                    && final(process)@.event_stream == (*process)@.event_stream && final(process)@.command_label == (*process)@.command_label
            },
{
}

/// A new process has no requests and no subscriber. Without a command of its own
/// it is labelled as a transport and has a log for fifty lines of each stream.
pub proof fn law_new_processes_are_empty<W, S>()
    ensures
        forall|command_label: String, result: Process<W, S>|
            #[trigger] call_ensures(
                Process::<W, S>::new_with_logging,
                (command_label,),
                result,
            ) ==> result@.pending == Map::<RequestIdView, W>::empty() && result@.event_stream
                == None::<Arc<S>> && result@.command_label == command_label@,
        forall|result: (Process<W, S>, ProcessLogs)|
            #[trigger] call_ensures(Process::<W, S>::new, (), result) ==> {
                &&& result.0@.pending == Map::<RequestIdView, W>::empty()
                &&& result.0@.event_stream == None::<Arc<S>>
                &&& result.0@.command_label == "mcp transport"@
                &&& result.1@.stdout.len() == 0
                &&& result.1@.stderr.len() == 0
                &&& result.1@.capacity == 50
            },
{
}

/// Starting a request enters its waiter under its identifier, touches nothing
/// else of the process, logs the request, and hands over the message and the
/// context as they are. Whether it is `initialize` is remembered.
pub proof fn law_started_requests_are_entered<M, C, W, S>()
    ensures
        forall|
            process: &mut Process<W, S>,
            logs: &mut ProcessLogs,
            request: crate::process::OutgoingRequest<M>,
            serialized: Option<String>,
            context: C,
            waiter: W,
            result: crate::process::StartedCall<M, C, W>,
        |
            #[trigger] call_ensures(
                Process::<W, S>::start_call::<M, C>,
                (process, logs, request, serialized, context, waiter),
                result,
            ) ==> {
                &&& final(process)@.pending == (*process)@.pending.insert(request.id@, waiter)
                &&& final(process)@.event_stream == (*process)@.event_stream
                &&& final(process)@.command_label == (*process)@.command_label
                &&& final(logs)@ == match serialized {
                    Some(text) => (*logs)@.with_stdout(">>>"@ + " "@ + text@),
                    None => (*logs)@,
                }
                &&& result.call.id@ == request.id@
                &&& result.call.is_initialize <==> request.method@ == "initialize"@
                &&& result.outgoing.message == request.message
                &&& result.outgoing.context == context
                &&& result.displaced is Some <==> (*process)@.pending.contains_key(request.id@)
                &&& result.displaced matches Some(earlier) ==> earlier
                    == (*process)@.pending[request.id@]
            },
        forall|
            process: &mut Process<W, S>,
            logs: &mut ProcessLogs,
            request: crate::process::OutgoingRequest<rmcp::model::ClientJsonRpcMessage>,
            context: C,
            waiter: W,
            result: crate::process::StartedCall<rmcp::model::ClientJsonRpcMessage, C, W>,
        |
            #[trigger] call_ensures(
                Process::<W, S>::send_message::<C>,
                (process, logs, request, context, waiter),
                result,
            ) ==> {
                &&& final(process)@.pending == (*process)@.pending.insert(request.id@, waiter)
                &&& final(process)@.event_stream == (*process)@.event_stream
                &&& final(process)@.command_label == (*process)@.command_label
                &&& (crate::wire::client_message_jsons(request.message).contains(None) && final(logs)@ == (*logs)@) || exists|text: Seq<char>|
                    #![trigger (*logs)@.with_message_line(">>>"@, text)]
                    crate::wire::client_message_jsons(request.message).contains(Some(text)) && final(logs)@ == (*logs)@.with_message_line(">>>"@, text)
                &&& result.call.id@ == request.id@
                &&& result.call.is_initialize <==> request.method@ == "initialize"@
                &&& result.outgoing.message == request.message
                &&& result.outgoing.context == context
                &&& result.displaced is Some <==> (*process)@.pending.contains_key(request.id@)
                &&& result.displaced matches Some(earlier) ==> earlier
                    == (*process)@.pending[request.id@]
            },
{
}

/// A notification is logged and handed over, and fails only if the event loop is
/// gone. A subscription replaces the subscriber and nothing else. Stopping gives
/// back the event loop's answer, or `Send` if there is none.
pub proof fn law_other_operations<M, C, W, S, X>()
    ensures
        forall|
            process: Process<W, S>,
            logs: &mut ProcessLogs,
            message: M,
            serialized: Option<String>,
            context: C,
            result: crate::process::Outgoing<M, C>,
        |
            #[trigger] call_ensures(
                Process::<W, S>::start_notification::<M, C>,
                (&process, logs, message, serialized, context),
                result,
            ) ==> result.message == message && result.context == context && final(logs)@
                == match serialized {
                Some(text) => (*logs)@.with_stdout(">>>"@ + " "@ + text@),
                None => (*logs)@,
            },
        forall|
            process: Process<W, S>,
            logs: &mut ProcessLogs,
            notification: rmcp::model::ClientNotification,
            context: C,
            result: crate::process::Outgoing<rmcp::model::ClientJsonRpcMessage, C>,
        |
            #[trigger] call_ensures(
                Process::<W, S>::send_notification::<C>,
                (&process, logs, notification, context),
                result,
            ) ==> result.message == crate::wire::client_notification_message(notification)
                && result.context == context && final(logs)@
                == match crate::wire::client_notification_json(notification) {
                Some(text) => (*logs)@.with_message_line(">>>"@, text),
                None => (*logs)@,
            },
        forall|
            process: Process<W, S>,
            forwarded: Result<(), ChannelClosed>,
            result: Result<(), UpstreamError<X>>,
        |
            #[trigger] call_ensures(
                Process::<W, S>::notification_forwarded::<X>,
                (&process, forwarded),
                result,
            ) ==> (forwarded is Ok ==> result is Ok) && (forwarded is Err ==> result == Err::<
                (),
                UpstreamError<X>,
            >(UpstreamError::Send)),
        forall|process: &mut Process<W, S>, stream: S|
            #[trigger] call_ensures(Process::<W, S>::get_event_stream, (process, stream), ())
                ==> final(process)@.event_stream == Some(Arc::new(stream)) && final(process)@.pending == (*process)@.pending && final(process)@.command_label
                == (*process)@.command_label,
        forall|
            process: Process<W, S>,
            answer: Result<Option<UpstreamError<X>>, ChannelClosed>,
            result: Result<(), UpstreamError<X>>,
        |
            #[trigger] call_ensures(Process::<W, S>::stop::<X>, (&process, answer), result) ==> {
                &&& answer matches Ok(None) ==> result is Ok
                &&& answer matches Ok(Some(err)) ==> result == Err::<(), UpstreamError<X>>(err)
                &&& answer is Err ==> result == Err::<(), UpstreamError<X>>(UpstreamError::Send)
            },
{
}

// The event loop.

/// Which events can happen in which phase: whatever comes from callers or the
/// transport while running, the outcome of a send while sending, the outcome of
/// closing while closing, and nothing after the end.
pub proof fn law_phases_accept_their_events<T, N, A, E>(
    phase: Phase<A>,
    item: T,
    incoming: Option<Incoming<N>>,
    answer: A,
    sent: Result<(), String>,
    closed: Result<(), Failure<E>>,
)
    ensures
        phase.accepts::<T, N, E>(Event::Outgoing(item)) <==> phase == Phase::<A>::Running,
        phase.accepts::<T, N, E>(Event::Received(incoming)) <==> phase == Phase::<A>::Running,
        phase.accepts::<T, N, E>(Event::Shutdown(answer)) <==> phase == Phase::<A>::Running,
        phase.accepts::<T, N, E>(Event::Exhausted) <==> phase == Phase::<A>::Running,
        phase.accepts::<T, N, E>(Event::Sent(sent)) <==> phase == Phase::<A>::Sending,
        phase.accepts::<T, N, E>(Event::Closed(closed)) <==> phase is Closing,
{
}

/// Every failed send ends the event loop: the action is `Stop`, no request waits
/// any longer, and the failure is logged. Who subscribes and the label stay.
pub proof fn law_failed_send_ends_the_loop<T, N, W, S, A, E>(
    state: SystemView<W, S, A>,
    text: String,
)
    requires
        state.phase is Sending,
    ensures
        state.action::<T, N, E>(Event::Sent(Err(text))) == Action::<T, N, W, S, A, E>::Stop,
        ({
            let after = state.after::<T, N, E>(Event::Sent(Err(text)));
            &&& after.phase == Phase::<A>::Stopped
            &&& after.process.pending == Map::<RequestIdView, W>::empty()
            &&& after.process.event_stream == state.process.event_stream
            &&& after.process.command_label == state.process.command_label
            &&& after.log == state.log.with_stdout("transport send error: "@ + text@)
        }),
{
}

/// The end of the transport ends the event loop in the same way.
pub proof fn law_end_of_transport_ends_the_loop<T, N, W, S, A, E>(state: SystemView<W, S, A>)
    requires
        state.phase is Running,
    ensures
        state.action::<T, N, E>(Event::Received(None)) == Action::<T, N, W, S, A, E>::Stop,
        ({
            let after = state.after::<T, N, E>(Event::Received(None));
            &&& after.phase == Phase::<A>::Stopped
            &&& after.process.pending == Map::<RequestIdView, W>::empty()
            &&& after.process.event_stream == state.process.event_stream
            &&& after.process.command_label == state.process.command_label
            &&& after.log == state.log.with_stdout("transport receive returned none"@)
        }),
{
}

/// Something to send is given to the transport, and once it is sent the event
/// loop waits again. Nothing but the phase changes.
pub proof fn law_outgoing_is_sent<T, N, W, S, A, E>(state: SystemView<W, S, A>, item: T)
    ensures
        state.action::<T, N, E>(Event::Outgoing(item)) == Action::<T, N, W, S, A, E>::Send(item),
        state.after::<T, N, E>(Event::Outgoing(item)).phase == Phase::<A>::Sending,
        state.after::<T, N, E>(Event::Outgoing(item)).process == state.process,
        state.after::<T, N, E>(Event::Outgoing(item)).log == state.log,
        state.action::<T, N, E>(Event::Sent(Ok(()))) == Action::<T, N, W, S, A, E>::Wait,
        state.after::<T, N, E>(Event::Sent(Ok(()))).phase == Phase::<A>::Running,
        state.after::<T, N, E>(Event::Sent(Ok(()))).process == state.process,
        state.after::<T, N, E>(Event::Sent(Ok(()))).log == state.log,
{
}

/// A request to stop, or the end of everything that could come, closes the
/// transport. Nothing but the phase changes, and it remembers whom to answer.
pub proof fn law_shutdown_closes_the_transport<T, N, W, S, A, E>(
    state: SystemView<W, S, A>,
    answer: A,
)
    ensures
        state.action::<T, N, E>(Event::Shutdown(answer)) == Action::<T, N, W, S, A, E>::Close,
        state.after::<T, N, E>(Event::Shutdown(answer)).phase == (Phase::Closing {
            answer: Some(answer),
        }),
        state.after::<T, N, E>(Event::Shutdown(answer)).process == state.process,
        state.after::<T, N, E>(Event::Shutdown(answer)).log == state.log,
        state.action::<T, N, E>(Event::Exhausted) == Action::<T, N, W, S, A, E>::Close,
        state.after::<T, N, E>(Event::Exhausted).phase == (Phase::Closing { answer: None::<A> }),
        state.after::<T, N, E>(Event::Exhausted).process == state.process,
        state.after::<T, N, E>(Event::Exhausted).log == state.log,
{
}

/// Once the transport has closed, well or not, the event loop ends: no request
/// waits any longer, a failure is logged, and whoever asked to stop is answered
/// with the error, if there was one.
pub proof fn law_closed_transport_ends_the_loop<T, N, W, S, A, E>(
    state: SystemView<W, S, A>,
    closed: Result<(), Failure<E>>,
)
    requires
        state.phase is Closing,
    ensures
        ({
            let after = state.after::<T, N, E>(Event::Closed(closed));
            let action = state.action::<T, N, E>(Event::Closed(closed));
            &&& after.phase == Phase::<A>::Stopped
            &&& after.process.pending == Map::<RequestIdView, W>::empty()
            &&& after.process.event_stream == state.process.event_stream
            &&& after.process.command_label == state.process.command_label
            &&& closed is Ok ==> after.log == state.log
            &&& closed matches Err(failure) ==> after.log == state.log.with_stdout(
                "transport close error: "@ + failure.message@,
            )
            &&& state.phase == (Phase::Closing { answer: None::<A> }) ==> action == Action::<
                T,
                N,
                W,
                S,
                A,
                E,
            >::Stop
            &&& state.phase matches Phase::Closing { answer: Some(answer) } ==> {
                &&& closed is Ok ==> action == Action::<T, N, W, S, A, E>::Answer {
                    answer,
                    error: None,
                }
                &&& closed matches Err(failure) ==> action == Action::<T, N, W, S, A, E>::Answer {
                    answer,
                    error: Some(failure.error),
                }
            }
        }),
{
}

/// A response goes to the waiter with its identifier, if there is one, and takes
/// that identifier out of the table and no other. A message of any other kind goes
/// to the subscriber, if there is one, and touches no request. Either way it is
/// logged, and the event loop goes on.
pub proof fn law_messages_are_routed<T, N, W, S, A, E>(
    state: SystemView<W, S, A>,
    kind: MessageKind,
    message: N,
    serialized: Option<String>,
)
    ensures
        ({
            let incoming = Incoming { message: ServerMessage { kind, message }, serialized };
            let after = state.after::<T, N, E>(Event::Received(Some(incoming)));
            let action = state.action::<T, N, E>(Event::Received(Some(incoming)));
            &&& kind matches MessageKind::Response { id } ==> {
                &&& after.process.pending == state.process.pending.remove(id@)
                &&& state.process.pending.contains_key(id@) ==> action == Action::<
                    T,
                    N,
                    W,
                    S,
                    A,
                    E,
                >::Reply { waiter: state.process.pending[id@], message }
                &&& !state.process.pending.contains_key(id@) ==> action == Action::<
                    T,
                    N,
                    W,
                    S,
                    A,
                    E,
                >::Wait
            }
            &&& !(kind is Response) ==> {
                &&& after.process.pending == state.process.pending
                &&& state.process.event_stream matches Some(stream) ==> action == Action::<
                    T,
                    N,
                    W,
                    S,
                    A,
                    E,
                >::Publish { stream, message }
                &&& state.process.event_stream is None ==> action == Action::<
                    T,
                    N,
                    W,
                    S,
                    A,
                    E,
                >::Wait
            }
            &&& after.phase == state.phase
            &&& after.process.event_stream == state.process.event_stream
            &&& after.process.command_label == state.process.command_label
            &&& serialized matches Some(text) ==> after.log == state.log.with_stdout(
                "<<<"@ + " "@ + text@,
            )
            &&& serialized is None ==> after.log == state.log
        }),
{
}

/// What a message from the transport does is what the event of receiving it does,
/// whatever text it is logged with.
pub proof fn law_messages_are_events<T, N, W, S, A, E>(
    state: SystemView<W, S, A>,
    message: ServerMessage<N>,
    serialized: Option<String>,
    log: LogView,
)
    ensures
        ({
            let event = Event::<T, N, A, E>::Received(Some(Incoming { message, serialized }));
            let json = match serialized {
                Some(text) => Some(text@),
                None => None,
            };
            &&& state.after_message(message, json) == state.after(event)
            &&& state.route::<T, N, E>(message) == state.action(event)
        }),
        state.stopped(log).phase == Phase::<A>::Stopped,
        state.stopped(log).process.pending == Map::<RequestIdView, W>::empty(),
        state.stopped(log).process.event_stream == state.process.event_stream,
        state.stopped(log).process.command_label == state.process.command_label,
        state.stopped(log).log == log,
{
}

/// A step of the event loop changes the phase, the process and the log, each on
/// its own, and an event loop starts out running.
pub proof fn law_steps_follow_the_event<T, N, E, W, S, A>()
    ensures
        forall|driver: Driver<A>, process: Process<W, S>, logs: ProcessLogs|
            (#[trigger] crate::driver::system(driver, process, logs)).phase == driver@
                && crate::driver::system(driver, process, logs).process == process@
                && crate::driver::system(driver, process, logs).log == logs@,
        forall|result: Driver<A>|
            #[trigger] call_ensures(Driver::<A>::new, (), result) ==> result@
                == Phase::<A>::Running,
        forall|driver: Driver<A>, result: &Phase<A>|
            #[trigger] call_ensures(Driver::<A>::phase, (&driver,), result) ==> *result == driver@,
        forall|
            driver: &mut Driver<A>,
            process: &mut Process<W, S>,
            logs: &mut ProcessLogs,
            event: Event<T, N, A, E>,
            action: Action<T, N, W, S, A, E>,
        |
            #[trigger] call_ensures(
                Driver::<A>::step::<T, N, E, W, S>,
                (driver, process, logs, event),
                action,
            ) ==> {
                let state = SystemView {
                    phase: (*driver)@,
                    process: (*process)@,
                    log: (*logs)@,
                };
                &&& final(driver)@ == state.after(event).phase
                &&& final(process)@ == state.after(event).process
                &&& final(logs)@ == state.after(event).log
                &&& action == state.action(event)
            },
{
}

/// However a send fails, the step that takes the failure in ends the event loop
/// and leaves no request waiting.
pub proof fn law_step_after_failed_send_ends<T, N, E, W, S, A>()
    ensures
        forall|
            driver: &mut Driver<A>,
            process: &mut Process<W, S>,
            logs: &mut ProcessLogs,
            text: String,
            action: Action<T, N, W, S, A, E>,
        |
            #[trigger] call_ensures(
                Driver::<A>::step::<T, N, E, W, S>,
                (driver, process, logs, Event::Sent(Err(text))),
                action,
            ) ==> action is Stop && final(driver)@ is Stopped && final(process)@.pending == Map::<
                RequestIdView,
                W,
            >::empty(),
{
}

/// What the transport has received is dealt with in the same way, and is logged
/// with the message's own JSON text, whole.
pub proof fn law_received_messages_are_routed<T, E, W, S, A>()
    ensures
        forall|
            driver: &mut Driver<A>,
            process: &mut Process<W, S>,
            logs: &mut ProcessLogs,
            received: Option<ServerMessage<rmcp::model::ServerJsonRpcMessage>>,
            action: Action<T, rmcp::model::ServerJsonRpcMessage, W, S, A, E>,
        |
            #[trigger] call_ensures(
                Driver::<A>::receive::<T, E, W, S>,
                (driver, process, logs, received),
                action,
            ) ==> {
                &&& received is None ==> {
                    &&& action is Stop
                    &&& final(driver)@ is Stopped
                    &&& final(process)@.pending == Map::<RequestIdView, W>::empty()
                    &&& final(logs)@ == (*logs)@.with_stdout("transport receive returned none"@)
                }
                &&& received matches Some(message) ==> {
                    &&& final(driver)@ == (*driver)@
                    &&& final(process)@.event_stream == (*process)@.event_stream
                    &&& final(process)@.command_label == (*process)@.command_label
                    &&& final(logs)@ == match crate::wire::server_message_json(message.message) {
                        Some(text) => (*logs)@.with_message_line("<<<"@, text),
                        None => (*logs)@,
                    }
                    &&& message.kind matches MessageKind::Response { id } ==> {
                        &&& final(process)@.pending == (*process)@.pending.remove(id@)
                        &&& if (*process)@.pending.contains_key(id@) {
                            action == Action::<
                                T,
                                rmcp::model::ServerJsonRpcMessage,
                                W,
                                S,
                                A,
                                E,
                            >::Reply {
                                waiter: (*process)@.pending[id@],
                                message: message.message,
                            }
                        } else {
                            action is Wait
                        }
                    }
                    &&& !(message.kind is Response) ==> {
                        &&& final(process)@.pending == (*process)@.pending
                        &&& match (*process)@.event_stream {
                            Some(stream) => action == Action::<
                                T,
                                rmcp::model::ServerJsonRpcMessage,
                                W,
                                S,
                                A,
                                E,
                            >::Publish { stream, message: message.message },
                            None => action is Wait,
                        }
                    }
                }
            },
{
}

} // verus!
