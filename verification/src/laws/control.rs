//! The control socket: what is done with what it reads and writes.

use crate::clock::Instant;
use crate::laws::flows::tick_after;
use crate::proxy::control::{
    after_read, after_write, answer_queued, input_processed, lemma_line_end, next_frame, proceeded,
    service_started, ControlAction, ControlView, Frame, Progress, ReadOutcome, WriteOutcome,
};
use crate::proxy::rpc::{
    json_response, line_answered, AnswerView, RpcErrorView, RpcIdView, RpcResponseView,
    SetParamsView,
};
use crate::proxy::rules::RulesView;
use crate::proxy::session::{control_after, with_rules, ControlEvent};
use crate::proxy::state::ProxyView;
use vstd::prelude::*;

verus! {

/// No byte is a newline.
pub open spec fn without_newline(s: Seq<u8>) -> bool {
    forall|i: int| 0 <= i < s.len() ==> s[i] != 10
}

/// A line that ends in a newline is the next frame, without the newline, if it has no more than
/// 1048576 bytes, and else is too long; what follows the newline is left.
pub proof fn law_lines_are_frames(line: Seq<u8>, rest: Seq<u8>)
    requires
        without_newline(line),
    ensures
        ({
            let step = next_frame(line.push(10) + rest, false);
            &&& step.input == rest
            &&& !step.discarding
            &&& line.len() <= 1_048_576 ==> step.frame == Frame::Line(line)
            &&& line.len() > 1_048_576 ==> step.frame is TooLong
        }),
{
    let input = line.push(10) + rest;
    assert(input[line.len() as int] == 10);
    assert forall|i: int| 0 <= i < line.len() implies input[i] != 10 by {
        assert(input[i] == line[i]);
    }
    lemma_line_end(input, 0, line.len() as int);
    assert(input.skip(line.len() as int + 1) =~= rest);
    assert(input.take(line.len() as int) =~= line);
}

/// What has not ended yet waits, up to 1048576 bytes. When it has more, it is too long already; it is
/// dropped, and what follows is skipped up to its end.
pub proof fn law_unended_lines_wait(input: Seq<u8>)
    requires
        without_newline(input),
    ensures
        input.len() <= 1_048_576 ==> next_frame(input, false).frame is Nothing && next_frame(
            input,
            false,
        ).input == input && !next_frame(input, false).discarding,
        input.len() > 1_048_576 ==> next_frame(input, false).frame is TooLong && next_frame(
            input,
            false,
        ).input.len() == 0 && next_frame(input, false).discarding,
        next_frame(input, true).frame is Nothing,
        next_frame(input, true).input.len() == 0,
        next_frame(input, true).discarding,
{
    lemma_line_end(input, 0, input.len() as int);
}

/// What belongs to a line that was too long is skipped, and what follows its newline is looked at as
/// usual.
pub proof fn law_the_rest_of_long_lines_is_skipped(junk: Seq<u8>, rest: Seq<u8>)
    requires
        without_newline(junk),
    ensures
        next_frame(junk.push(10) + rest, true) == next_frame(rest, false),
{
    crate::proxy::control::law_long_frame_is_skipped(junk, rest);
}

/// The answer as it is written: its JSON, and a newline.
pub open spec fn written(response: RpcResponseView) -> Seq<u8> {
    json_response(response) + seq![10u8]
}

/// An answer is written behind what is pending, as long as no more than 4194304 bytes are then
/// pending. Where there is no room, nothing changes.
pub proof fn law_answers_wait_in_line(c: ControlView, rules: RulesView, a: AnswerView)
    ensures
        ({
            let r = answer_queued(c, rules, a);
            let fits = c.pending.len() + written(a.response).len() <= 4_194_304;
            &&& r.result == if fits {
                Progress::Flush
            } else {
                Progress::Overflow
            }
            &&& fits ==> r.control.pending == c.pending + written(a.response)
            &&& !fits ==> r.control == c && r.rules == rules
            &&& r.control.input == c.input
            &&& r.control.discarding_input == c.discarding_input
            &&& r.control.input_closed == c.input_closed
            &&& r.control.bytes_read == c.bytes_read
        }),
{
    assert(json_response(a.response).push(10) =~= json_response(a.response) + seq![10u8]);
}

/// An update takes effect with its answer: its lists become the policy, for the same gateway. If they
/// are other lists than before, its rules are in force and the change is noted; else the rules
/// stay. Without an update nothing of this changes.
pub proof fn law_updates_take_effect_with_their_answer(
    c: ControlView,
    rules: RulesView,
    a: AnswerView,
)
    requires
        c.pending.len() + written(a.response).len() <= 4_194_304,
    ensures
        ({
            let r = answer_queued(c, rules, a);
            match a.update {
                Some(u) => {
                    let changes = u.allow != c.policy.allow || u.block != c.policy.block;
                    &&& r.control.policy.allow == u.allow
                    &&& r.control.policy.block == u.block
                    &&& r.control.policy.gateway_ip == c.policy.gateway_ip
                    &&& changes ==> r.rules == u.rules && r.control.policy_changed
                    &&& !changes ==> r.rules == rules && r.control.policy_changed
                        == c.policy_changed
                },
                None => {
                    &&& r.control.policy == c.policy
                    &&& r.rules == rules
                    &&& r.control.policy_changed == c.policy_changed
                },
            }
        }),
{
}

/// A line is answered by what it asks for under the policy in force, and one that is too long with
/// a parse error that names no request. Without a frame nothing is answered.
pub proof fn law_frames_are_answered(c: ControlView, rules: RulesView, set: Option<SetParamsView>)
    ensures
        ({
            let step = next_frame(c.input, c.discarding_input);
            let taken = ControlView { input: step.input, discarding_input: step.discarding, ..c };
            let r = input_processed(c, rules, set);
            match step.frame {
                Frame::Line(line) => r == answer_queued(
                    taken,
                    rules,
                    line_answered(c.policy, rules.count(), line, set),
                ),
                Frame::TooLong => exists|a: AnswerView| #[trigger]
                    answer_queued(taken, rules, a) == r && a.update is None && a.response.id is Null
                        && (a.response.result matches Err(e) && e.code == -32700 && e.message
                        == "request exceeds the maximum frame size"@),
                Frame::Nothing => r.control == taken && r.rules == rules && r.result
                    == Progress::Idle,
            }
        }),
{
    let step = next_frame(c.input, c.discarding_input);
    let taken = ControlView { input: step.input, discarding_input: step.discarding, ..c };
    let a = AnswerView {
        response: RpcResponseView {
            id: RpcIdView::Null,
            result: Err(
                RpcErrorView {
                    code: (-32700) as i32,
                    message: "request exceeds the maximum frame size"@,
                },
            ),
        },
        update: None,
    };
    if step.frame is TooLong {
        assert(answer_queued(taken, rules, a) == input_processed(c, rules, set));
    }
}

/// After an answer the socket is written to. Where there is no complete frame, more is read, until
/// 1048576 bytes have been read in a turn or the input has ended; the socket then stays open in
/// the first case and not in the second. Where there is no room for an answer, the socket is
/// given up.
pub proof fn law_what_follows_a_frame(c: ControlView, rules: RulesView, set: Option<SetParamsView>)
    ensures
        ({
            let r = input_processed(c, rules, set);
            let next = proceeded(c, rules, set);
            &&& next.control == r.control
            &&& next.rules == r.rules
            &&& r.result == Progress::Flush ==> next.result == ControlAction::Write
            &&& r.result == Progress::Overflow ==> next.result == ControlAction::Overflow
            &&& r.result == Progress::Idle && c.input_closed ==> next.result
                == (ControlAction::Done { keep_open: false })
            &&& r.result == Progress::Idle && !c.input_closed && c.bytes_read < 1_048_576
                ==> next.result == ControlAction::Read
            &&& r.result == Progress::Idle && !c.input_closed && c.bytes_read >= 1_048_576
                ==> next.result == (ControlAction::Done { keep_open: true })
        }),
{
}

/// A turn counts the bytes that it reads from zero. What is pending is written first, and until it
/// is, no input is looked at.
pub proof fn law_turns_start_with_what_is_pending(
    c: ControlView,
    rules: RulesView,
    set: Option<SetParamsView>,
)
    ensures
        ({
            let fresh = ControlView { bytes_read: 0, ..c };
            let r = service_started(c, rules, set);
            &&& c.pending.len() > 0 ==> r.control == fresh && r.rules == rules && r.result
                == ControlAction::Write
            &&& c.pending.len() == 0 ==> r == proceeded(fresh, rules, set)
        }),
{
}

/// What was written is no longer pending. A write that took everything lets the input be looked at
/// again; one that took a part is followed by another; one that took nothing, or a peer that is
/// gone, closes the socket; and a socket that takes nothing for now stays open.
pub proof fn law_what_follows_a_write(
    c: ControlView,
    rules: RulesView,
    outcome: WriteOutcome,
    set: Option<SetParamsView>,
)
    requires
        c.pending.len() > 0,
        outcome matches WriteOutcome::Wrote(n) ==> n <= c.pending.len(),
    ensures
        ({
            let r = after_write(c, rules, outcome, set);
            match outcome {
                WriteOutcome::Closed => r.control == c && r.rules == rules && r.result
                    == (ControlAction::Done { keep_open: false }),
                WriteOutcome::Blocked => r.control == c && r.rules == rules && r.result
                    == (ControlAction::Done { keep_open: true }),
                WriteOutcome::Wrote(n) => {
                    let rest = ControlView {
                        pending: c.pending.subrange(n as int, c.pending.len() as int),
                        ..c
                    };
                    &&& n == 0 ==> r.control == c && r.rules == rules && r.result
                        == (ControlAction::Done { keep_open: false })
                    &&& 0 < n < c.pending.len() ==> r.control == rest && r.rules == rules && r.result
                        == ControlAction::Write
                    &&& n == c.pending.len() ==> r == proceeded(rest, rules, set)
                },
            }
        }),
{
    if let WriteOutcome::Wrote(n) = outcome {
        assert(c.pending.skip(n as int) =~= c.pending.subrange(n as int, c.pending.len() as int));
    }
}

/// What was read is added to the input, which is then looked at. The end of the input closes the
/// socket and is remembered; a peer that is gone closes it; and where there is nothing to be
/// read for now, it stays open unless the input has ended.
pub proof fn law_what_follows_a_read(
    c: ControlView,
    rules: RulesView,
    outcome: ReadOutcome,
    set: Option<SetParamsView>,
)
    ensures
        ({
            let r = after_read(c, rules, outcome, set);
            match outcome {
                ReadOutcome::Closed => r.control == c && r.rules == rules && r.result
                    == (ControlAction::Done { keep_open: false }),
                ReadOutcome::Blocked => r.control == c && r.rules == rules && r.result
                    == (ControlAction::Done { keep_open: !c.input_closed }),
                ReadOutcome::Eof => r.control == (ControlView { input_closed: true, ..c }) && r.rules
                    == rules && r.result == (ControlAction::Done { keep_open: false }),
                ReadOutcome::Bytes(bytes) => {
                    let sum = c.bytes_read + bytes@.len();
                    let more = ControlView {
                        input: c.input + bytes@,
                        bytes_read: if sum <= usize::MAX {
                            sum as usize
                        } else {
                            usize::MAX
                        },
                        ..c
                    };
                    r == proceeded(more, rules, set)
                },
            }
        }),
{
}

/// The socket does in its turn, after a write and after a read what is said of each.
pub proof fn law_events_are_told_apart(
    c: ControlView,
    rules: RulesView,
    event: ControlEvent,
    set: Option<SetParamsView>,
)
    ensures
        control_after(c, rules, event, set) == match event {
            ControlEvent::Turn => service_started(c, rules, set),
            ControlEvent::Write(outcome) => after_write(c, rules, outcome, set),
            ControlEvent::Read(outcome) => after_read(c, rules, outcome, set),
        },
{
}

/// New rules are in force at once and for every flow: no flow is known any more, and flows are
/// tracked exactly if the new rules ask for it. Neither the lease nor the machine's own
/// addresses are touched.
pub proof fn law_new_rules_start_afresh(s: ProxyView, rules: RulesView, now: Instant)
    ensures
        ({
            let after = with_rules(s, rules, now);
            &&& after.rules == rules
            &&& after.lease == s.lease
            &&& after.gateway_ip == s.gateway_ip
            &&& after.vm_mac_address == s.vm_mac_address
            &&& after.flows is Some <==> rules.mode is Stateful
            &&& after.flows matches Some(table) ==> table.flows.dom().len() == 0
                && table.flows.dom().finite() && table.next_sweep.ticks == tick_after(now, 1)
        }),
{
}

} // verus!
