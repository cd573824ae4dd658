//! The control socket: frames in, answers out, and the policy in between.
//!
//! What is read from the socket and written to it passes through here as plain bytes.
//! Each step says what is to be done with the socket next, and is told what came of it.

use crate::addr::Ipv4Address;
use crate::proxy::policy::{normal_list, Policy, PolicyView};
use crate::proxy::rpc::{
    answered, decodes, error_response, failure, handle_request, json_response, line_answered,
    write_response, AnswerView, CallView, RpcId, RpcIdView, RpcResponse, RpcResponseView, SetParams,
    SetParamsView, PARSE_ERROR,
};
use crate::proxy::rule::Rule;
use crate::proxy::rules::{all_wf, Rules, RulesView};
use vstd::prelude::*;

verus! {

/// The longest frame that is looked at.
pub const MAX_REQUEST_BYTES: usize = 1_048_576;

/// The most bytes of answers that may wait to be written.
pub const MAX_PENDING_RESPONSE_BYTES: usize = 4_194_304;

/// The bytes after which reading gives way to other work.
pub const MAX_SERVICE_BYTES: usize = 1_048_576;

pub const NEWLINE: u8 = 10;

/// The position of the first newline from `from` on, or the end.
pub open spec fn line_end(s: Seq<u8>, from: int) -> int
    decreases s.len() - from,
{
    if from < 0 || from >= s.len() {
        s.len() as int
    } else if s[from] == NEWLINE {
        from
    } else {
        line_end(s, from + 1)
    }
}

/// What the input holds next.
pub enum Frame {
    /// No complete frame.
    Nothing,
    /// A frame that exceeds the limit.
    TooLong,
    Line(Seq<u8>),
}

/// What is taken from the input, and what stays.
pub struct FrameStep {
    pub input: Seq<u8>,
    pub discarding: bool,
    pub frame: Frame,
}

/// The next frame of an input of which nothing is to be skipped.
pub open spec fn frame_of(input: Seq<u8>) -> FrameStep {
    let end = line_end(input, 0);
    if end == input.len() {
        if input.len() > MAX_REQUEST_BYTES {
            FrameStep { input: Seq::empty(), discarding: true, frame: Frame::TooLong }
        } else {
            FrameStep { input: input, discarding: false, frame: Frame::Nothing }
        }
    } else {
        FrameStep {
            input: input.skip(end + 1),
            discarding: false,
            frame: if end > MAX_REQUEST_BYTES {
                Frame::TooLong
            } else {
                Frame::Line(input.take(end))
            },
        }
    }
}

/// The next frame. The rest of a frame that was too long is skipped up to its newline.
pub open spec fn next_frame(input: Seq<u8>, discarding: bool) -> FrameStep {
    let end = line_end(input, 0);
    if !discarding {
        frame_of(input)
    } else if end == input.len() {
        FrameStep { input: Seq::empty(), discarding: true, frame: Frame::Nothing }
    } else {
        frame_of(input.skip(end + 1))
    }
}

/// An answer as it goes over the socket.
pub open spec fn response_line(response: RpcResponseView) -> Seq<u8> {
    json_response(response).push(NEWLINE)
}

/// The answer to a frame that is too long.
pub open spec fn too_long_response() -> RpcResponseView {
    failure(RpcIdView::Null, PARSE_ERROR, "request exceeds the maximum frame size"@)
}

/// What the control socket has come to, seen from outside.
#[verifier::ext_equal]
pub struct ControlView {
    pub policy: PolicyView,
    pub input: Seq<u8>,
    /// The answers that wait to be written.
    pub pending: Seq<u8>,
    pub discarding_input: bool,
    pub input_closed: bool,
    pub policy_changed: bool,
    pub bytes_read: usize,
}

/// How far the input could be worked off.
#[derive(Clone, Copy, Debug, PartialEq, Eq, Structural)]
pub enum Progress {
    /// There is no complete frame.
    Idle,
    /// An answer waits to be written.
    Flush,
    /// There is no room for an answer.
    Overflow,
}

/// What is to be done with the socket next.
#[derive(Clone, Copy, Debug, PartialEq, Eq, Structural)]
pub enum ControlAction {
    /// Write what is pending.
    Write,
    /// Read more input.
    Read,
    /// Nothing for now; the socket stays open or not.
    Done { keep_open: bool },
    /// Give up: there is no room for an answer.
    Overflow,
}

/// What came of a write.
#[derive(Clone, Copy, Debug, PartialEq, Eq, Structural)]
pub enum WriteOutcome {
    Wrote(usize),
    Blocked,
    /// The peer is gone.
    Closed,
}

/// What came of a read.
pub enum ReadOutcome {
    Bytes(Vec<u8>),
    Eof,
    Blocked,
    /// The peer is gone.
    Closed,
}

/// The state, the rules and the result after a step.
pub struct StepView<R> {
    pub control: ControlView,
    pub rules: RulesView,
    pub result: R,
}

/// An answer is put in the queue, and the update that goes with it in force. Where there is no room
/// for the answer, the update is not put in force either.
pub open spec fn answer_queued(
    c: ControlView,
    rules: RulesView,
    a: AnswerView,
) -> StepView<Progress> {
    let pending = c.pending + response_line(a.response);
    if pending.len() > MAX_PENDING_RESPONSE_BYTES {
        StepView { control: c, rules: rules, result: Progress::Overflow }
    } else {
        match a.update {
            None => StepView {
                control: ControlView { pending: pending, ..c },
                rules: rules,
                result: Progress::Flush,
            },
            Some(u) => {
                let changed = c.policy.allow != u.allow || c.policy.block != u.block;
                StepView {
                    control: ControlView {
                        pending: pending,
                        policy: PolicyView { allow: u.allow, block: u.block, ..c.policy },
                        policy_changed: c.policy_changed || changed,
                        ..c
                    },
                    rules: if changed {
                        u.rules
                    } else {
                        rules
                    },
                    result: Progress::Flush,
                }
            },
        }
    }
}

/// The next frame is taken from the input and answered.
pub open spec fn input_processed(
    c: ControlView,
    rules: RulesView,
    set: Option<SetParamsView>,
) -> StepView<Progress> {
    let step = next_frame(c.input, c.discarding_input);
    let rest = ControlView { input: step.input, discarding_input: step.discarding, ..c };
    match step.frame {
        Frame::Nothing => StepView { control: rest, rules: rules, result: Progress::Idle },
        Frame::TooLong => answer_queued(
            rest,
            rules,
            AnswerView { response: too_long_response(), update: None },
        ),
        Frame::Line(line) => answer_queued(
            rest,
            rules,
            line_answered(c.policy, rules.count(), line, set),
        ),
    }
}

/// `set` is what `decode` has made of the parameters that the next answer depends on.
pub open spec fn input_decodes<F: Fn(Option<String>) -> Option<SetParams>>(
    decode: F,
    c: ControlView,
    set: Option<SetParamsView>,
) -> bool {
    next_frame(c.input, c.discarding_input).frame matches Frame::Line(line) ==> decodes(
        decode,
        line,
        set,
    )
}

/// The input is worked off as far as it goes without the socket.
pub open spec fn proceeded(
    c: ControlView,
    rules: RulesView,
    set: Option<SetParamsView>,
) -> StepView<ControlAction> {
    let step = input_processed(c, rules, set);
    StepView {
        control: step.control,
        rules: step.rules,
        result: match step.result {
            Progress::Overflow => ControlAction::Overflow,
            Progress::Flush => ControlAction::Write,
            Progress::Idle => if c.input_closed {
                ControlAction::Done { keep_open: false }
            } else if c.bytes_read < MAX_SERVICE_BYTES {
                ControlAction::Read
            } else {
                ControlAction::Done { keep_open: true }
            },
        },
    }
}

/// Nothing but the given state follows, and the given action.
pub open spec fn stopped(c: ControlView, rules: RulesView, action: ControlAction) -> StepView<
    ControlAction,
> {
    StepView { control: c, rules: rules, result: action }
}

/// The socket is serviced: what is pending is written before any more input is looked at.
pub open spec fn service_started(
    c: ControlView,
    rules: RulesView,
    set: Option<SetParamsView>,
) -> StepView<ControlAction> {
    let fresh = ControlView { bytes_read: 0, ..c };
    if c.pending.len() > 0 {
        stopped(fresh, rules, ControlAction::Write)
    } else {
        proceeded(fresh, rules, set)
    }
}

/// Part of what is pending was written, or nothing was.
pub open spec fn after_write(
    c: ControlView,
    rules: RulesView,
    outcome: WriteOutcome,
    set: Option<SetParamsView>,
) -> StepView<ControlAction> {
    match outcome {
        WriteOutcome::Closed => stopped(c, rules, ControlAction::Done { keep_open: false }),
        WriteOutcome::Blocked => stopped(c, rules, ControlAction::Done { keep_open: true }),
        WriteOutcome::Wrote(n) => {
            let rest = ControlView { pending: c.pending.skip(n as int), ..c };
            if n == 0 {
                stopped(c, rules, ControlAction::Done { keep_open: false })
            } else if n < c.pending.len() {
                stopped(rest, rules, ControlAction::Write)
            } else {
                proceeded(rest, rules, set)
            }
        },
    }
}

/// More input was read, or none was.
pub open spec fn after_read(
    c: ControlView,
    rules: RulesView,
    outcome: ReadOutcome,
    set: Option<SetParamsView>,
) -> StepView<ControlAction> {
    match outcome {
        ReadOutcome::Closed => stopped(c, rules, ControlAction::Done { keep_open: false }),
        ReadOutcome::Blocked => stopped(
            c,
            rules,
            ControlAction::Done { keep_open: !c.input_closed },
        ),
        ReadOutcome::Eof => stopped(
            (ControlView { input_closed: true, ..c }),
            rules,
            ControlAction::Done { keep_open: false },
        ),
        ReadOutcome::Bytes(bytes) => proceeded(grown(c, bytes@), rules, set),
    }
}

/// The input with more bytes.
pub open spec fn grown(c: ControlView, bytes: Seq<u8>) -> ControlView {
    ControlView {
        input: c.input + bytes,
        bytes_read: if c.bytes_read + bytes.len() <= usize::MAX {
            (c.bytes_read + bytes.len()) as usize
        } else {
            usize::MAX
        },
        ..c
    }
}

/// `set` is what `decode` has made of the parameters that the next answer depends on, if the input
/// is looked at when the socket is serviced.
pub open spec fn service_decodes<F: Fn(Option<String>) -> Option<SetParams>>(
    decode: F,
    c: ControlView,
    set: Option<SetParamsView>,
) -> bool {
    c.pending.len() == 0 ==> input_decodes(decode, c, set)
}

/// The same, if the input is looked at after a write.
pub open spec fn write_decodes<F: Fn(Option<String>) -> Option<SetParams>>(
    decode: F,
    c: ControlView,
    outcome: WriteOutcome,
    set: Option<SetParamsView>,
) -> bool {
    (outcome matches WriteOutcome::Wrote(n) && 0 < n && n == c.pending.len()) ==> input_decodes(
        decode,
        c,
        set,
    )
}

/// The same, if the input is looked at after a read.
pub open spec fn read_decodes<F: Fn(Option<String>) -> Option<SetParams>>(
    decode: F,
    c: ControlView,
    outcome: ReadOutcome,
    set: Option<SetParamsView>,
) -> bool {
    outcome matches ReadOutcome::Bytes(bytes) ==> input_decodes(decode, grown(c, bytes@), set)
}

pub(crate) proof fn lemma_line_end(s: Seq<u8>, from: int, end: int)
    requires
        0 <= from <= end <= s.len(),
        forall|i: int| from <= i < end ==> s[i] != NEWLINE,
        end < s.len() ==> s[end] == NEWLINE,
    ensures
        line_end(s, from) == end,
    decreases end - from,
{
    if from < end {
        lemma_line_end(s, from + 1, end);
    }
}

fn find_newline(bytes: &Vec<u8>) -> (r: usize)
    ensures
        r == line_end(bytes@, 0),
        r <= bytes@.len(),
        r < bytes@.len() ==> bytes@[r as int] == NEWLINE,
{
    let mut i: usize = 0;
    while i < bytes.len() && bytes[i] != NEWLINE
        invariant
            i <= bytes@.len(),
            forall|j: int| 0 <= j < i ==> bytes@[j] != NEWLINE,
        decreases bytes@.len() - i,
    {
        i = i + 1;
    }
    proof {
        lemma_line_end(bytes@, 0, i as int);
    }
    i
}

/// What the control socket has come to.
#[derive(Debug)]
pub struct Control {
    pub policy: Policy,
    pub input: Vec<u8>,
    pub output: Vec<u8>,
    pub output_offset: usize,
    pub discarding_input: bool,
    pub input_closed: bool,
    pub policy_changed: bool,
    pub bytes_read: usize,
}

impl View for Control {
    type V = ControlView;

    open spec fn view(&self) -> ControlView {
        ControlView {
            policy: self.policy@,
            input: self.input@,
            pending: self.output@.skip(self.output_offset as int),
            discarding_input: self.discarding_input,
            input_closed: self.input_closed,
            policy_changed: self.policy_changed,
            bytes_read: self.bytes_read,
        }
    }
}

impl Control {
    /// The queue of answers never exceeds its limit, and is emptied once all is written.
    pub open spec fn wf(&self) -> bool {
        &&& self.policy@.wf()
        &&& self.output_offset <= self.output@.len()
        &&& self.output_offset == self.output@.len() ==> self.output@.len() == 0
        &&& self@.pending.len() <= MAX_PENDING_RESPONSE_BYTES
    }

    pub fn new(gateway_ip: Ipv4Address, allow: &Vec<Rule>, block: &Vec<Rule>) -> (r: Control)
        requires
            all_wf(allow@),
            all_wf(block@),
        ensures
            r.wf(),
            r@ == (ControlView {
                policy: PolicyView {
                    allow: normal_list(allow@),
                    block: normal_list(block@),
                    gateway_ip: gateway_ip,
                },
                input: Seq::empty(),
                pending: Seq::empty(),
                discarding_input: false,
                input_closed: false,
                policy_changed: false,
                bytes_read: 0,
            }),
    {
        let r = Control {
            policy: Policy::new(gateway_ip, allow, block),
            input: Vec::new(),
            output: Vec::new(),
            output_offset: 0,
            discarding_input: false,
            input_closed: false,
            policy_changed: false,
            bytes_read: 0,
        };
        assert(r@.pending =~= Seq::<u8>::empty());
        r
    }

    /// The bytes that are to be written.
    pub fn pending(&self) -> (r: &[u8])
        requires
            self.wf(),
        ensures
            r@ == self@.pending,
    {
        let r = vstd::slice::slice_subrange(
            self.output.as_slice(),
            self.output_offset,
            self.output.len(),
        );
        assert(r@ =~= self@.pending);
        r
    }

    /// Returns whether the policy changed, and clears the change flag.
    pub fn policy_changed(&mut self) -> (r: bool)
        requires
            old(self).wf(),
        ensures
            final(self).wf(),
            r == old(self)@.policy_changed,
            final(self)@ == (ControlView { policy_changed: false, ..old(self)@ }),
            final(self).output == old(self).output,
            final(self).output_offset == old(self).output_offset,
    {
        let changed = self.policy_changed;
        self.policy_changed = false;
        changed
    }

    /// Drops what is written, and puts an answer in the queue unless there is no room for it.
    pub fn enqueue(&mut self, response: &RpcResponse) -> (r: bool)
        requires
            old(self).wf(),
        ensures
            final(self).wf(),
            r == (old(self)@.pending.len() + response_line(response@).len()
                <= MAX_PENDING_RESPONSE_BYTES),
            final(self)@ == if r {
                ControlView {
                    pending: old(self)@.pending + response_line(response@),
                    ..old(self)@
                }
            } else {
                old(self)@
            },
            final(self).output_offset == 0,
    {
        if self.output_offset != 0 {
            let mut rest = self.output.split_off(self.output_offset);
            self.output.clear();
            self.output.append(&mut rest);
            self.output_offset = 0;
        }
        assert(self.output@ =~= old(self)@.pending);
        assert(self@.pending =~= old(self)@.pending);
        let mut line = write_response(response);
        if line.len() >= MAX_PENDING_RESPONSE_BYTES || self.output.len()
            > MAX_PENDING_RESPONSE_BYTES - 1 - line.len() {
            return false;
        }
        line.push(NEWLINE);
        self.output.append(&mut line);
        assert(self@.pending =~= old(self)@.pending + response_line(response@));
        true
    }

    /// Takes the next frame from the input and answers it.
    pub fn process_input<F: Fn(Option<String>) -> Option<SetParams>>(
        &mut self,
        rules: &mut Rules,
        decode: &F,
    ) -> (r: Progress)
        requires
            old(self).wf(),
            forall|params: Option<String>| #[trigger] call_requires(*decode, (params,)),
        ensures
            final(self).wf(),
            exists|set: Option<SetParamsView>| #[trigger]
                input_decodes(*decode, old(self)@, set) && (StepView {
                    control: final(self)@,
                    rules: final(rules)@,
                    result: r,
                }) == input_processed(old(self)@, old(rules)@, set),
            final(self).output_offset == if r == Progress::Idle {
                old(self).output_offset
            } else {
                0
            },
    {
        let ghost before = self@;
        if self.discarding_input {
            let newline: usize = find_newline(&self.input);
            if newline == self.input.len() {
                self.input.clear();
                assert(self@ =~= (ControlView {
                    input: Seq::empty(),
                    discarding_input: true,
                    ..before
                }));
                assert(input_decodes(*decode, old(self)@, None));
                return Progress::Idle;
            }
            let rest = self.input.split_off(newline + 1);
            assert(rest@ =~= before.input.skip(newline + 1));
            self.input = rest;
            self.discarding_input = false;
        }
        let ghost step = next_frame(before.input, before.discarding_input);
        assert(step == frame_of(self.input@));
        let newline: usize = find_newline(&self.input);
        if newline == self.input.len() {
            if self.input.len() <= MAX_REQUEST_BYTES {
                assert(self@ =~= (ControlView {
                    input: step.input,
                    discarding_input: step.discarding,
                    ..before
                }));
                assert(input_decodes(*decode, old(self)@, None));
                return Progress::Idle;
            }
            self.input.clear();
            self.discarding_input = true;
            return self.refuse_frame(rules, decode, Ghost(before));
        }
        let mut line = self.input.split_off(newline + 1);
        std::mem::swap(&mut self.input, &mut line);
        assert(self.input@ =~= step.input);
        if newline > MAX_REQUEST_BYTES {
            return self.refuse_frame(rules, decode, Ghost(before));
        }
        line.truncate(newline);
        assert(step.frame matches Frame::Line(l) && l =~= line@);
        let ghost rest = ControlView {
            input: step.input,
            discarding_input: step.discarding,
            ..before
        };
        assert(self@ =~= rest);
        let (response, update) = handle_request(&self.policy, rules, line.as_slice(), decode);
        let ghost set = choose|set: Option<SetParamsView>| #[trigger]
            decodes(*decode, line@, set) && (AnswerView {
                response: response@,
                update: crate::proxy::policy::opt_update_view(update),
            }) == line_answered(self.policy@, rules@.count(), line@, set);
        assert(input_decodes(*decode, old(self)@, set));
        let ghost a = line_answered(before.policy, old(rules)@.count(), line@, set);
        if !self.enqueue(&response) {
            assert(self@ =~= answer_queued(rest, old(rules)@, a).control);
            return Progress::Overflow;
        }
        if let Some(update) = update {
            if let Some(updated_rules) = self.policy.apply(update) {
                *rules = updated_rules;
                self.policy_changed = true;
            }
        }
        assert(self@ =~= answer_queued(rest, old(rules)@, a).control);
        Progress::Flush
    }

    fn refuse_frame<F: Fn(Option<String>) -> Option<SetParams>>(
        &mut self,
        rules: &Rules,
        decode: &F,
        before: Ghost<ControlView>,
    ) -> (r: Progress)
        requires
            old(self).wf(),
            ({
                let step = next_frame(before@.input, before@.discarding_input);
                step.frame is TooLong && old(self)@ =~= (ControlView {
                    input: step.input,
                    discarding_input: step.discarding,
                    ..before@
                })
            }),
        ensures
            final(self).wf(),
            input_decodes(*decode, before@, None),
            (StepView { control: final(self)@, rules: rules@, result: r }) == input_processed(
                before@,
                rules@,
                None,
            ),
            r != Progress::Idle,
            final(self).output_offset == 0,
    {
        let response = error_response(
            RpcId::Null,
            PARSE_ERROR,
            "request exceeds the maximum frame size",
        );
        assert(response@ == too_long_response());
        if self.enqueue(&response) {
            Progress::Flush
        } else {
            Progress::Overflow
        }
    }

    fn proceed<F: Fn(Option<String>) -> Option<SetParams>>(
        &mut self,
        rules: &mut Rules,
        decode: &F,
    ) -> (r: ControlAction)
        requires
            old(self).wf(),
            forall|params: Option<String>| #[trigger] call_requires(*decode, (params,)),
        ensures
            final(self).wf(),
            exists|set: Option<SetParamsView>| #[trigger]
                input_decodes(*decode, old(self)@, set) && (StepView {
                    control: final(self)@,
                    rules: final(rules)@,
                    result: r,
                }) == proceeded(old(self)@, old(rules)@, set),
            old(self).output_offset == 0 ==> final(self).output_offset == 0,
    {
        let input_closed = self.input_closed;
        let bytes_read: usize = self.bytes_read;
        match self.process_input(rules, decode) {
            Progress::Overflow => ControlAction::Overflow,
            Progress::Flush => ControlAction::Write,
            Progress::Idle => if input_closed {
                ControlAction::Done { keep_open: false }
            } else if bytes_read < MAX_SERVICE_BYTES {
                ControlAction::Read
            } else {
                ControlAction::Done { keep_open: true }
            },
        }
    }

    /// Starts to service the socket, and says what to do with it first.
    pub fn service<F: Fn(Option<String>) -> Option<SetParams>>(
        &mut self,
        rules: &mut Rules,
        decode: &F,
    ) -> (r: ControlAction)
        requires
            old(self).wf(),
            forall|params: Option<String>| #[trigger] call_requires(*decode, (params,)),
        ensures
            final(self).wf(),
            exists|set: Option<SetParamsView>| #[trigger]
                service_decodes(*decode, old(self)@, set) && (StepView {
                    control: final(self)@,
                    rules: final(rules)@,
                    result: r,
                }) == service_started(old(self)@, old(rules)@, set),
    {
        self.bytes_read = 0;
        let ghost fresh = ControlView { bytes_read: 0, ..old(self)@ };
        assert(self@ =~= fresh);
        if self.output_offset < self.output.len() {
            assert(service_decodes(*decode, old(self)@, None));
            return ControlAction::Write;
        }
        let r = self.proceed(rules, decode);
        proof {
            let set = choose|set: Option<SetParamsView>| #[trigger]
                input_decodes(*decode, fresh, set) && (StepView {
                    control: self@,
                    rules: rules@,
                    result: r,
                }) == proceeded(fresh, old(rules)@, set);
            assert(service_decodes(*decode, old(self)@, set));
        }
        r
    }

    /// Goes on after a write of what was pending.
    pub fn on_write<F: Fn(Option<String>) -> Option<SetParams>>(
        &mut self,
        outcome: WriteOutcome,
        rules: &mut Rules,
        decode: &F,
    ) -> (r: ControlAction)
        requires
            old(self).wf(),
            outcome matches WriteOutcome::Wrote(n) ==> n <= old(self)@.pending.len(),
            forall|params: Option<String>| #[trigger] call_requires(*decode, (params,)),
        ensures
            final(self).wf(),
            exists|set: Option<SetParamsView>| #[trigger]
                write_decodes(*decode, old(self)@, outcome, set) && (StepView {
                    control: final(self)@,
                    rules: final(rules)@,
                    result: r,
                }) == after_write(old(self)@, old(rules)@, outcome, set),
            final(self).output_offset == match outcome {
                WriteOutcome::Wrote(n) => if 0 < n && n == old(self)@.pending.len() {
                    0
                } else {
                    old(self).output_offset + n
                },
                _ => old(self).output_offset as int,
            },
    {
        let n: usize = match outcome {
            WriteOutcome::Closed => {
                assert(write_decodes(*decode, old(self)@, outcome, None));
                return ControlAction::Done { keep_open: false };
            },
            WriteOutcome::Blocked => {
                assert(write_decodes(*decode, old(self)@, outcome, None));
                return ControlAction::Done { keep_open: true };
            },
            WriteOutcome::Wrote(n) => n,
        };
        if n == 0 {
            assert(write_decodes(*decode, old(self)@, outcome, None));
            return ControlAction::Done { keep_open: false };
        }
        let ghost rest = ControlView { pending: old(self)@.pending.skip(n as int), ..old(self)@ };
        assert(self.output_offset + n <= self.output.len());
        self.output_offset = self.output_offset + n;
        assert(self@ =~= rest);
        if self.output_offset < self.output.len() {
            assert(write_decodes(*decode, old(self)@, outcome, None));
            return ControlAction::Write;
        }
        self.output.clear();
        self.output_offset = 0;
        assert(self@ =~= rest);
        let r = self.proceed(rules, decode);
        proof {
            let set = choose|set: Option<SetParamsView>| #[trigger]
                input_decodes(*decode, rest, set) && (StepView {
                    control: self@,
                    rules: rules@,
                    result: r,
                }) == proceeded(rest, old(rules)@, set);
            assert(write_decodes(*decode, old(self)@, outcome, set));
        }
        r
    }

    /// Goes on after a read.
    pub fn on_read<F: Fn(Option<String>) -> Option<SetParams>>(
        &mut self,
        outcome: ReadOutcome,
        rules: &mut Rules,
        decode: &F,
    ) -> (r: ControlAction)
        requires
            old(self).wf(),
            forall|params: Option<String>| #[trigger] call_requires(*decode, (params,)),
        ensures
            final(self).wf(),
            exists|set: Option<SetParamsView>| #[trigger]
                read_decodes(*decode, old(self)@, outcome, set) && (StepView {
                    control: final(self)@,
                    rules: final(rules)@,
                    result: r,
                }) == after_read(old(self)@, old(rules)@, outcome, set),
    {
        let ghost outcome_view = outcome;
        let mut bytes = match outcome {
            ReadOutcome::Closed => {
                assert(read_decodes(*decode, old(self)@, outcome, None));
                return ControlAction::Done { keep_open: false };
            },
            ReadOutcome::Blocked => {
                assert(read_decodes(*decode, old(self)@, outcome, None));
                return ControlAction::Done { keep_open: !self.input_closed };
            },
            ReadOutcome::Eof => {
                self.input_closed = true;
                assert(self@ =~= (ControlView { input_closed: true, ..old(self)@ }));
                assert(read_decodes(*decode, old(self)@, outcome, None));
                return ControlAction::Done { keep_open: false };
            },
            ReadOutcome::Bytes(bytes) => bytes,
        };
        let ghost more = grown(old(self)@, bytes@);
        self.bytes_read = self.bytes_read.saturating_add(bytes.len());
        self.input.append(&mut bytes);
        assert(self@ =~= more);
        let r = self.proceed(rules, decode);
        proof {
            let set = choose|set: Option<SetParamsView>| #[trigger]
                input_decodes(*decode, more, set) && (StepView {
                    control: self@,
                    rules: rules@,
                    result: r,
                }) == proceeded(more, old(rules)@, set);
            assert(read_decodes(*decode, old(self)@, outcome_view, set));
        }
        r
    }
}

/// What is reported when there is no room for an answer.
pub fn overflow_message() -> (r: String)
    ensures
        r@ == "control response queue exceeded 4194304 bytes"@,
{
    String::from_str("control response queue exceeded 4194304 bytes")
}

/// While answers wait to be written, no input is looked at and the policy stays as it is.
pub proof fn law_backpressure_stops_input(
    c: ControlView,
    rules: RulesView,
    outcome: WriteOutcome,
    set: Option<SetParamsView>,
)
    requires
        c.pending.len() > 0,
        outcome matches WriteOutcome::Wrote(n) ==> n < c.pending.len(),
    ensures
        service_started(c, rules, set).control.input == c.input,
        service_started(c, rules, set).control.policy == c.policy,
        service_started(c, rules, set).rules == rules,
        service_started(c, rules, set).result == ControlAction::Write,
        after_write(c, rules, outcome, set).control.input == c.input,
        after_write(c, rules, outcome, set).control.policy == c.policy,
        after_write(c, rules, outcome, set).rules == rules,
{
}

/// Where there is no room for an answer, no update is put in force.
pub proof fn law_overflow_applies_no_update(
    c: ControlView,
    rules: RulesView,
    set: Option<SetParamsView>,
)
    requires
        input_processed(c, rules, set).result == Progress::Overflow,
    ensures
        input_processed(c, rules, set).control.policy == c.policy,
        input_processed(c, rules, set).control.policy_changed == c.policy_changed,
        input_processed(c, rules, set).control.pending == c.pending,
        input_processed(c, rules, set).rules == rules,
{
}

/// The queue of answers stays within its limit.
pub proof fn law_queue_is_bounded(c: ControlView, rules: RulesView, set: Option<SetParamsView>)
    requires
        c.pending.len() <= MAX_PENDING_RESPONSE_BYTES,
    ensures
        input_processed(c, rules, set).control.pending.len() <= MAX_PENDING_RESPONSE_BYTES,
{
}

/// A frame is not answered before its newline has arrived.
pub proof fn law_partial_frame_waits(c: ControlView, rules: RulesView, set: Option<SetParamsView>)
    requires
        !c.discarding_input,
        c.input.len() <= MAX_REQUEST_BYTES,
        forall|i: int| 0 <= i < c.input.len() ==> c.input[i] != NEWLINE,
    ensures
        input_processed(c, rules, set).result == Progress::Idle,
        input_processed(c, rules, set).control == c,
        input_processed(c, rules, set).rules == rules,
{
    lemma_line_end(c.input, 0, c.input.len() as int);
    assert(input_processed(c, rules, set).control =~= c);
}

/// The rest of a frame that was too long is skipped, and the frame behind it is the next.
pub proof fn law_long_frame_is_skipped(junk: Seq<u8>, rest: Seq<u8>)
    requires
        forall|i: int| 0 <= i < junk.len() ==> junk[i] != NEWLINE,
    ensures
        next_frame(junk.push(NEWLINE) + rest, true) == next_frame(rest, false),
{
    let input = junk.push(NEWLINE) + rest;
    assert(input[junk.len() as int] == NEWLINE);
    assert forall|i: int| 0 <= i < junk.len() implies input[i] != NEWLINE by {
        assert(input[i] == junk[i]);
    }
    lemma_line_end(input, 0, junk.len() as int);
    assert(input.skip(junk.len() as int + 1) =~= rest);
}

/// A request to be told the policy, after one that has set it, is answered with what the setting
/// was answered with, provided the rules in force were those of the policy.
pub proof fn law_get_after_set(
    c: ControlView,
    rules: RulesView,
    set_id: RpcIdView,
    get_id: RpcIdView,
    params: SetParamsView,
)
    requires
        rules == c.policy.compiled(),
        answered(
            c.policy,
            rules.count(),
            set_id,
            CallView::SetPolicy(Some(params)),
        ).update is Some,
        answer_queued(
            c,
            rules,
            answered(c.policy, rules.count(), set_id, CallView::SetPolicy(Some(params))),
        ).result == Progress::Flush,
    ensures
        ({
            let a = answered(
                c.policy,
                rules.count(),
                set_id,
                CallView::SetPolicy(Some(params)),
            );
            let after = answer_queued(c, rules, a);
            let told = answered(
                after.control.policy,
                after.rules.count(),
                get_id,
                CallView::GetPolicy { empty_params: true },
            );
            &&& told.response.result == a.response.result
            &&& after.rules == after.control.policy.compiled()
        }),
{
}

/// A request that does not set the policy, or fails to, leaves it as it is.
pub proof fn law_only_a_valid_set_changes_policy(
    c: ControlView,
    rules: RulesView,
    a: AnswerView,
)
    requires
        a.update is None,
    ensures
        answer_queued(c, rules, a).control.policy == c.policy,
        answer_queued(c, rules, a).control.policy_changed == c.policy_changed,
        answer_queued(c, rules, a).rules == rules,
{
}

/// A refused request carries no update.
pub proof fn law_errors_carry_no_update(
    policy: PolicyView,
    rule_count: usize,
    line: Seq<u8>,
    set: Option<SetParamsView>,
)
    requires
        line_answered(policy, rule_count, line, set).response.result is Err,
    ensures
        line_answered(policy, rule_count, line, set).update is None,
{
}

} // verus!
