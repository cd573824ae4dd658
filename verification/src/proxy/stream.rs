//! What the control socket makes of a stream of bytes, however the stream is cut into reads.
//!
//! Throughout, every write takes all that is pending, and `sets` tells what is decoded of the
//! parameters of a line.

use crate::proxy::control::{
    after_write, frame_of, input_processed, lemma_line_end, line_end, next_frame, proceeded,
    response_line, too_long_response, ControlView, Frame, FrameStep, Progress, WriteOutcome,
    MAX_PENDING_RESPONSE_BYTES, MAX_REQUEST_BYTES, NEWLINE,
};
use crate::proxy::policy::PolicyView;
use crate::proxy::rpc::{line_answered, AnswerView, SetParamsView};
use crate::proxy::rules::RulesView;
use vstd::prelude::*;

verus! {

/// What has come of the input so far.
#[verifier::ext_equal]
pub struct Worked {
    pub control: ControlView,
    pub rules: RulesView,
    /// The answers that were written, in order.
    pub answers: Seq<Seq<u8>>,
    /// There was no room for an answer, so that nothing more is done.
    pub overflow: bool,
}

/// What is decoded of the parameters that the answer to a frame depends on.
pub open spec fn set_of(
    frame: Frame,
    sets: spec_fn(Seq<u8>) -> Option<SetParamsView>,
) -> Option<SetParamsView> {
    match frame {
        Frame::Line(line) => sets(line),
        _ => None,
    }
}

/// The state once all that was pending is written.
pub open spec fn all_written(c: ControlView) -> ControlView {
    ControlView { pending: Seq::empty(), ..c }
}

/// Frame after frame is taken from the input, and each answer is written before the next frame is
/// taken, until the input holds no complete frame.
pub open spec fn worked_off(
    c: ControlView,
    rules: RulesView,
    sets: spec_fn(Seq<u8>) -> Option<SetParamsView>,
) -> Worked
    decreases c.input.len(),
{
    let set = set_of(next_frame(c.input, c.discarding_input).frame, sets);
    let step = input_processed(c, rules, set);
    match step.result {
        Progress::Idle => Worked {
            control: step.control,
            rules: step.rules,
            answers: Seq::empty(),
            overflow: false,
        },
        Progress::Overflow => Worked {
            control: step.control,
            rules: step.rules,
            answers: Seq::empty(),
            overflow: true,
        },
        Progress::Flush => {
            proof {
                law_frame_shrinks_input(c.input, c.discarding_input);
            }
            let more = worked_off(all_written(step.control), step.rules, sets);
            Worked { answers: seq![step.control.pending] + more.answers, ..more }
        },
    }
}

/// Nothing has been worked off yet.
pub open spec fn started(c: ControlView, rules: RulesView) -> Worked {
    Worked { control: c, rules: rules, answers: Seq::empty(), overflow: false }
}

/// A chunk is appended to the input, which is then worked off.
pub open spec fn fed(
    w: Worked,
    chunk: Seq<u8>,
    sets: spec_fn(Seq<u8>) -> Option<SetParamsView>,
) -> Worked {
    if w.overflow {
        w
    } else {
        let c = ControlView { input: w.control.input + chunk, ..w.control };
        let more = worked_off(c, w.rules, sets);
        Worked { answers: w.answers + more.answers, ..more }
    }
}

/// Chunk after chunk is appended to the input, which is worked off after each.
pub open spec fn fed_all(
    w: Worked,
    chunks: Seq<Seq<u8>>,
    sets: spec_fn(Seq<u8>) -> Option<SetParamsView>,
) -> Worked
    decreases chunks.len(),
{
    if chunks.len() == 0 {
        w
    } else {
        fed(fed_all(w, chunks.drop_last(), sets), chunks.last(), sets)
    }
}

/// The stream that was cut into the chunks.
pub open spec fn stream_of(chunks: Seq<Seq<u8>>) -> Seq<u8>
    decreases chunks.len(),
{
    if chunks.len() == 0 {
        Seq::empty()
    } else {
        stream_of(chunks.drop_last()) + chunks.last()
    }
}

/// The same answers were written, and the same policy and rules are in force. Unless there was no
/// room for an answer, everything is the same.
pub open spec fn same_outcome(a: Worked, b: Worked) -> bool {
    &&& a.answers == b.answers
    &&& a.rules == b.rules
    &&& a.control.policy == b.control.policy
    &&& a.control.policy_changed == b.control.policy_changed
    &&& a.overflow == b.overflow
    &&& !a.overflow ==> a == b
}

/// What has come of a sequence of frames.
pub struct Answered {
    pub policy: PolicyView,
    pub rules: RulesView,
    pub policy_changed: bool,
    pub answers: Seq<Seq<u8>>,
    pub overflow: bool,
}

/// The answer to a frame.
pub open spec fn frame_answered(
    policy: PolicyView,
    rules: RulesView,
    frame: Frame,
    sets: spec_fn(Seq<u8>) -> Option<SetParamsView>,
) -> AnswerView {
    match frame {
        Frame::Line(line) => line_answered(policy, rules.count(), line, sets(line)),
        _ => AnswerView { response: too_long_response(), update: None },
    }
}

/// Each frame is answered once, in order, by the policy that the frames before it have left. An
/// answer for which there is no room at all ends it.
pub open spec fn frames_answered(
    policy: PolicyView,
    rules: RulesView,
    frames: Seq<Frame>,
    sets: spec_fn(Seq<u8>) -> Option<SetParamsView>,
) -> Answered
    decreases frames.len(),
{
    let nothing = Answered {
        policy: policy,
        rules: rules,
        policy_changed: false,
        answers: Seq::empty(),
        overflow: false,
    };
    if frames.len() == 0 {
        nothing
    } else {
        let a = frame_answered(policy, rules, frames[0], sets);
        let answer = response_line(a.response);
        if answer.len() > MAX_PENDING_RESPONSE_BYTES {
            Answered { overflow: true, ..nothing }
        } else {
            let changed = a.update matches Some(u) && (u.allow != policy.allow || u.block
                != policy.block);
            let more = frames_answered(
                match a.update {
                    Some(u) => PolicyView { allow: u.allow, block: u.block, ..policy },
                    None => policy,
                },
                match a.update {
                    Some(u) if changed => u.rules,
                    _ => rules,
                },
                frames.drop_first(),
                sets,
            );
            Answered {
                policy_changed: changed || more.policy_changed,
                answers: seq![answer] + more.answers,
                ..more
            }
        }
    }
}

/// No byte is a newline.
pub open spec fn one_line(s: Seq<u8>) -> bool {
    forall|i: int| 0 <= i < s.len() ==> s[i] != NEWLINE
}

/// The lines, each with its newline.
pub open spec fn lines_written(lines: Seq<Seq<u8>>) -> Seq<u8>
    decreases lines.len(),
{
    if lines.len() == 0 {
        Seq::empty()
    } else {
        lines[0].push(NEWLINE) + lines_written(lines.drop_first())
    }
}

/// A line as a frame.
pub open spec fn frame_for(line: Seq<u8>) -> Frame {
    if line.len() > MAX_REQUEST_BYTES {
        Frame::TooLong
    } else {
        Frame::Line(line)
    }
}

/// The frames of some lines and of what follows them: a frame for each line, and one for the rest
/// where it is too long already.
pub open spec fn frames_for(lines: Seq<Seq<u8>>, tail: Seq<u8>) -> Seq<Frame> {
    lines.map_values(|line: Seq<u8>| frame_for(line)) + if tail.len() > MAX_REQUEST_BYTES {
        seq![Frame::TooLong]
    } else {
        Seq::empty()
    }
}

proof fn lemma_line_end_found(s: Seq<u8>, from: int)
    requires
        0 <= from <= s.len(),
    ensures
        from <= line_end(s, from) <= s.len(),
        forall|i: int| from <= i < line_end(s, from) ==> s[i] != NEWLINE,
        line_end(s, from) < s.len() ==> s[line_end(s, from)] == NEWLINE,
    decreases s.len() - from,
{
    if from < s.len() && s[from] != NEWLINE {
        lemma_line_end_found(s, from + 1);
    }
}

proof fn lemma_line_end_of_two(a: Seq<u8>, b: Seq<u8>)
    ensures
        0 <= line_end(a, 0) <= a.len(),
        0 <= line_end(b, 0) <= b.len(),
        line_end(a + b, 0) == if line_end(a, 0) < a.len() {
            line_end(a, 0)
        } else {
            a.len() + line_end(b, 0)
        },
{
    lemma_line_end_found(a, 0);
    lemma_line_end_found(b, 0);
    let end: int = if line_end(a, 0) < a.len() {
        line_end(a, 0)
    } else {
        a.len() + line_end(b, 0)
    };
    let s = a + b;
    assert forall|i: int| 0 <= i < end implies s[i] != NEWLINE by {
        if i < a.len() {
            assert(s[i] == a[i]);
        } else {
            assert(s[i] == b[i - a.len()]);
        }
    }
    lemma_line_end(s, 0, end);
}

/// A frame is taken out of the input: less of it is left.
pub proof fn law_frame_shrinks_input(input: Seq<u8>, discarding: bool)
    ensures
        next_frame(input, discarding).frame !is Nothing ==> next_frame(
            input,
            discarding,
        ).input.len() < input.len(),
{
    lemma_line_end_found(input, 0);
    if discarding && line_end(input, 0) < input.len() {
        lemma_line_end_found(input.skip(line_end(input, 0) + 1), 0);
    }
}

/// The next frame of an input that goes on.
proof fn lemma_frame_of_two(a: Seq<u8>, b: Seq<u8>)
    ensures
        ({
            let one = frame_of(a);
            let two = frame_of(a + b);
            match one.frame {
                Frame::Nothing => one.input == a && !one.discarding,
                _ if one.discarding => {
                    &&& one.input == Seq::<u8>::empty()
                    &&& one.frame is TooLong
                    &&& two.frame is TooLong
                    &&& next_frame(two.input, two.discarding) == next_frame(b, true)
                },
                _ => two == (FrameStep { input: one.input + b, ..one }),
            }
        }),
{
    lemma_line_end_of_two(a, b);
    let end = line_end(a, 0);
    if end < a.len() {
        assert((a + b).skip(end + 1) =~= a.skip(end + 1) + b);
        assert((a + b).take(end) =~= a.take(end));
    } else if a.len() > MAX_REQUEST_BYTES {
        let e = line_end(b, 0);
        if e < b.len() {
            assert((a + b).skip(a.len() + e + 1) =~= b.skip(e + 1));
        } else {
            assert(line_end(Seq::<u8>::empty(), 0) == 0);
        }
    }
}

/// The next frame of an input that goes on, where something may have to be skipped first.
proof fn lemma_next_frame_of_two(a: Seq<u8>, b: Seq<u8>, discarding: bool)
    ensures
        ({
            let one = next_frame(a, discarding);
            let two = next_frame(a + b, discarding);
            match one.frame {
                Frame::Nothing => two == next_frame(one.input + b, one.discarding),
                _ if one.discarding => {
                    &&& one.input == Seq::<u8>::empty()
                    &&& one.frame is TooLong
                    &&& two.frame is TooLong
                    &&& next_frame(two.input, two.discarding) == next_frame(b, true)
                },
                _ => two == (FrameStep { input: one.input + b, ..one }),
            }
        }),
{
    lemma_line_end_of_two(a, b);
    let end = line_end(a, 0);
    if !discarding {
        lemma_frame_of_two(a, b);
    } else if end < a.len() {
        assert((a + b).skip(end + 1) =~= a.skip(end + 1) + b);
        lemma_frame_of_two(a.skip(end + 1), b);
    } else {
        let e = line_end(b, 0);
        assert(Seq::<u8>::empty() + b =~= b);
        if e < b.len() {
            assert((a + b).skip(a.len() + e + 1) =~= b.skip(e + 1));
        }
    }
}

/// What the next frame is, and what is left behind it, is all that counts of the input.
proof fn lemma_same_next_frame(
    x: ControlView,
    y: ControlView,
    rules: RulesView,
    sets: spec_fn(Seq<u8>) -> Option<SetParamsView>,
)
    requires
        next_frame(x.input, x.discarding_input) == next_frame(y.input, y.discarding_input),
        y == (ControlView { input: y.input, discarding_input: y.discarding_input, ..x }),
    ensures
        worked_off(x, rules, sets) == worked_off(y, rules, sets),
{
}

/// To work off an input and then what follows it comes to the same as to work off both at once.
proof fn lemma_worked_off_in_two(
    c: ControlView,
    more: Seq<u8>,
    rules: RulesView,
    sets: spec_fn(Seq<u8>) -> Option<SetParamsView>,
)
    requires
        c.pending.len() == 0,
    ensures
        same_outcome(
            worked_off((ControlView { input: c.input + more, ..c }), rules, sets),
            fed(worked_off(c, rules, sets), more, sets),
        ),
    decreases c.input.len(),
{
    let both = ControlView { input: c.input + more, ..c };
    let one = next_frame(c.input, c.discarding_input);
    let two = next_frame(both.input, both.discarding_input);
    lemma_next_frame_of_two(c.input, more, c.discarding_input);
    law_frame_shrinks_input(c.input, c.discarding_input);
    let first = worked_off(c, rules, sets);
    let set = set_of(one.frame, sets);
    let step = input_processed(c, rules, set);
    let step_both = input_processed(both, rules, set);
    assert(c.pending =~= Seq::<u8>::empty());
    if one.frame is Nothing {
        let rest = ControlView { input: one.input, discarding_input: one.discarding, ..c };
        let next = ControlView { input: one.input + more, ..rest };
        lemma_same_next_frame(both, next, rules, sets);
        assert(first.answers + worked_off(next, rules, sets).answers =~= worked_off(
            next,
            rules,
            sets,
        ).answers);
    } else {
        assert(two.frame == one.frame);
        if step.result == Progress::Flush {
            let sent = all_written(step.control);
            let sent_both = all_written(step_both.control);
            let answer = step.control.pending;
            assert(step_both.control.pending == answer);
            let after = worked_off(sent, step.rules, sets);
            let after_both = worked_off(sent_both, step.rules, sets);
            let last = fed(after, more, sets);
            assert(first == (Worked { answers: seq![answer] + after.answers, ..after }));
            lemma_worked_off_in_two(sent, more, step.rules, sets);
            if one.discarding {
                let next = ControlView { input: sent.input + more, ..sent };
                assert(next.input =~= more);
                lemma_same_next_frame(sent_both, next, step.rules, sets);
            } else {
                assert(sent_both == (ControlView { input: sent.input + more, ..sent }));
            }
            assert(same_outcome(after_both, last));
            assert(fed(first, more, sets).answers =~= seq![answer] + last.answers);
        }
    }
}

proof fn lemma_fed_respects_outcome(
    a: Worked,
    b: Worked,
    chunk: Seq<u8>,
    sets: spec_fn(Seq<u8>) -> Option<SetParamsView>,
)
    requires
        same_outcome(a, b),
    ensures
        same_outcome(fed(a, chunk, sets), fed(b, chunk, sets)),
{
}

proof fn lemma_fed_all_at_once(
    c: ControlView,
    rules: RulesView,
    chunks: Seq<Seq<u8>>,
    sets: spec_fn(Seq<u8>) -> Option<SetParamsView>,
)
    requires
        c.pending.len() == 0,
        chunks.len() > 0,
    ensures
        same_outcome(
            fed_all(started(c, rules), chunks, sets),
            fed(started(c, rules), stream_of(chunks), sets),
        ),
    decreases chunks.len(),
{
    let start = started(c, rules);
    let before = chunks.drop_last();
    let last = chunks.last();
    if before.len() == 0 {
        assert(fed_all(start, before, sets) == start);
        assert(stream_of(before) =~= Seq::<u8>::empty());
        assert(stream_of(chunks) =~= last);
    } else {
        lemma_fed_all_at_once(c, rules, before, sets);
        let grown = ControlView { input: c.input + stream_of(before), ..c };
        let so_far = worked_off(grown, rules, sets);
        assert(fed(start, stream_of(before), sets).answers =~= so_far.answers);
        assert(fed(start, stream_of(before), sets) == so_far);
        lemma_fed_respects_outcome(fed_all(start, before, sets), so_far, last, sets);
        lemma_worked_off_in_two(grown, last, rules, sets);
        assert(grown.input + last =~= c.input + stream_of(chunks));
        let at_once = fed(start, stream_of(chunks), sets);
        assert(at_once.answers =~= worked_off(
            (ControlView { input: c.input + stream_of(chunks), ..c }),
            rules,
            sets,
        ).answers);
    }
}

/// Once a write has taken all that was pending, the input is worked off from there.
pub proof fn law_full_write_goes_on(
    c: ControlView,
    rules: RulesView,
    n: usize,
    set: Option<SetParamsView>,
)
    requires
        0 < n,
        n == c.pending.len(),
    ensures
        after_write(c, rules, WriteOutcome::Wrote(n), set) == proceeded(all_written(c), rules, set),
        proceeded(all_written(c), rules, set).control == input_processed(
            all_written(c),
            rules,
            set,
        ).control,
{
    assert(c.pending.skip(n as int) =~= Seq::<u8>::empty());
}

/// However a stream is cut into chunks, the same answers are written, and the same policy and rules
/// are in force in the end.
pub proof fn law_chunks_do_not_matter(
    c: ControlView,
    rules: RulesView,
    some: Seq<Seq<u8>>,
    others: Seq<Seq<u8>>,
    sets: spec_fn(Seq<u8>) -> Option<SetParamsView>,
)
    requires
        c.pending.len() == 0,
        some.len() > 0,
        others.len() > 0,
        stream_of(some) == stream_of(others),
    ensures
        same_outcome(
            fed_all(started(c, rules), some, sets),
            fed_all(started(c, rules), others, sets),
        ),
{
    lemma_fed_all_at_once(c, rules, some, sets);
    lemma_fed_all_at_once(c, rules, others, sets);
}

/// Every line that ends in a newline is answered exactly once, in order: by what the request comes
/// to, or, where the line is too long, by an error, after which the next line is looked at as any
/// other. What follows the last newline is not answered unless it is too long already; it stays in
/// the input.
pub proof fn law_every_frame_is_answered_once(
    c: ControlView,
    rules: RulesView,
    lines: Seq<Seq<u8>>,
    tail: Seq<u8>,
    sets: spec_fn(Seq<u8>) -> Option<SetParamsView>,
)
    requires
        c.pending.len() == 0,
        !c.discarding_input,
        c.input == lines_written(lines) + tail,
        forall|i: int| 0 <= i < lines.len() ==> one_line(#[trigger] lines[i]),
        one_line(tail),
    ensures
        ({
            let w = worked_off(c, rules, sets);
            let a = frames_answered(c.policy, rules, frames_for(lines, tail), sets);
            &&& w.answers == a.answers
            &&& w.control.policy == a.policy
            &&& w.rules == a.rules
            &&& w.control.policy_changed == (c.policy_changed || a.policy_changed)
            &&& w.overflow == a.overflow
            &&& !w.overflow ==> {
                &&& w.answers.len() == frames_for(lines, tail).len()
                &&& w.control.discarding_input == (tail.len() > MAX_REQUEST_BYTES)
                &&& w.control.input == if tail.len() > MAX_REQUEST_BYTES {
                    Seq::empty()
                } else {
                    tail
                }
            }
        }),
    decreases lines.len(),
{
    assert(c.pending =~= Seq::<u8>::empty());
    let frames = frames_for(lines, tail);
    let step = input_processed(
        c,
        rules,
        set_of(next_frame(c.input, c.discarding_input).frame, sets),
    );
    if lines.len() == 0 {
        assert(c.input =~= tail);
        lemma_line_end(tail, 0, tail.len() as int);
        if tail.len() > MAX_REQUEST_BYTES {
            assert(frames =~= seq![Frame::TooLong]);
            let sent = all_written(step.control);
            assert(line_end(Seq::<u8>::empty(), 0) == 0);
            if step.result == Progress::Flush {
                assert(worked_off(sent, rules, sets).answers =~= Seq::<Seq<u8>>::empty());
            }
            assert(frames.drop_first() =~= Seq::<Frame>::empty());
            assert(frames_answered(c.policy, rules, frames.drop_first(), sets).answers =~= Seq::<
                Seq<u8>,
            >::empty());
        } else {
            assert(frames =~= Seq::<Frame>::empty());
        }
    } else {
        let line = lines[0];
        let rest = lines_written(lines.drop_first()) + tail;
        assert(one_line(line));
        assert(c.input =~= line.push(NEWLINE) + rest);
        assert(c.input[line.len() as int] == NEWLINE);
        assert forall|i: int| 0 <= i < line.len() implies c.input[i] != NEWLINE by {
            assert(c.input[i] == line[i]);
        }
        lemma_line_end(c.input, 0, line.len() as int);
        assert(c.input.skip(line.len() as int + 1) =~= rest);
        assert(c.input.take(line.len() as int) =~= line);
        assert(next_frame(c.input, false).frame == frame_for(line));
        assert(frames[0] == frame_for(line));
        assert(frames.drop_first() =~= frames_for(lines.drop_first(), tail));
        let a = frame_answered(c.policy, rules, frames[0], sets);
        assert(c.pending + response_line(a.response) =~= response_line(a.response));
        let sent = all_written(step.control);
        if step.result == Progress::Flush {
            assert forall|i: int| 0 <= i < lines.drop_first().len() implies one_line(
                #[trigger] lines.drop_first()[i],
            ) by {
                assert(lines.drop_first()[i] == lines[i + 1]);
            }
            law_every_frame_is_answered_once(sent, step.rules, lines.drop_first(), tail, sets);
        }
    }
}

} // verus!
