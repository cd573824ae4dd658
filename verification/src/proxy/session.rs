//! How the control socket changes what the filter does.

use crate::clock::{instant_after, ticks_of_secs, Instant};
use crate::proxy::conntrack;
use crate::proxy::control::{
    after_read, after_write, read_decodes, service_decodes, service_started, write_decodes, Control,
    ControlAction, ControlView, ReadOutcome, StepView, WriteOutcome,
};
use crate::proxy::flow_map::FlowKey;
use crate::proxy::flows::{Flow, FlowTable, SWEEP_INTERVAL_SECS};
use crate::proxy::rpc::{SetParams, SetParamsView};
use crate::proxy::rules::RulesView;
use crate::proxy::state::{FlowsView, Proxy, ProxyView};
use vstd::prelude::*;

verus! {

/// What has happened to the control socket.
pub enum ControlEvent {
    /// It is its turn.
    Turn,
    Write(WriteOutcome),
    Read(ReadOutcome),
}

/// The control socket after an event.
pub open spec fn control_after(
    c: ControlView,
    rules: RulesView,
    event: ControlEvent,
    set: Option<SetParamsView>,
) -> StepView<ControlAction> {
    match event {
        ControlEvent::Turn => service_started(c, rules, set),
        ControlEvent::Write(outcome) => after_write(c, rules, outcome, set),
        ControlEvent::Read(outcome) => after_read(c, rules, outcome, set),
    }
}

/// `set` is what `decode` has made of the parameters that the answer to an event depends on.
pub open spec fn event_decodes<F: Fn(Option<String>) -> Option<SetParams>>(
    decode: F,
    c: ControlView,
    event: ControlEvent,
    set: Option<SetParamsView>,
) -> bool {
    match event {
        ControlEvent::Turn => service_decodes(decode, c, set),
        ControlEvent::Write(outcome) => write_decodes(decode, c, outcome, set),
        ControlEvent::Read(outcome) => read_decodes(decode, c, outcome, set),
    }
}

/// The filter under new rules: no flow that the old ones let in is kept.
pub open spec fn with_rules(s: ProxyView, rules: RulesView, now: Instant) -> ProxyView {
    ProxyView {
        rules: rules,
        flows: if rules.mode is Stateful {
            Some(
                FlowsView {
                    flows: Map::<FlowKey, Flow>::empty(),
                    next_sweep: instant_after(now, ticks_of_secs(SWEEP_INTERVAL_SECS)),
                },
            )
        } else {
            None
        },
        ..s
    }
}

/// The rules stay as they are unless the change of the policy is noted.
pub proof fn law_rules_change_with_the_policy(
    c: ControlView,
    rules: RulesView,
    event: ControlEvent,
    set: Option<SetParamsView>,
)
    requires
        !control_after(c, rules, event, set).control.policy_changed,
    ensures
        control_after(c, rules, event, set).rules == rules,
{
}

impl Proxy {
    /// Lets the control socket react to an event. If the policy has changed, the new rules take
    /// the place of the old ones, and every flow is forgotten.
    pub fn on_control_event<F: Fn(Option<String>) -> Option<SetParams>>(
        &mut self,
        control: &mut Control,
        event: ControlEvent,
        decode: &F,
        now: Instant,
    ) -> (r: ControlAction)
        requires
            old(self).wf(),
            old(control).wf(),
            event matches ControlEvent::Write(WriteOutcome::Wrote(n)) ==> n <= old(
                control,
            )@.pending.len(),
            forall|params: Option<String>| #[trigger] call_requires(*decode, (params,)),
        ensures
            final(self).wf(),
            final(control).wf(),
            final(self).dhcp_snooper == old(self).dhcp_snooper,
            final(self).enobufs_encountered == old(self).enobufs_encountered,
            exists|set: Option<SetParamsView>|
                {
                    let step = control_after(old(control)@, old(self)@.rules, event, set);
                    &&& #[trigger] event_decodes(*decode, old(control)@, event, set)
                    &&& r == step.result
                    &&& final(control)@ == (ControlView { policy_changed: false, ..step.control })
                    &&& if step.control.policy_changed {
                        &&& final(self)@ == with_rules(old(self)@, step.rules, now)
                        &&& final(self).conntrack@ == Map::<FlowKey, conntrack::Flow>::empty()
                        &&& final(self).conntrack.next_sweep == old(self).conntrack.next_sweep
                    } else {
                        &&& final(self)@ == old(self)@
                        &&& final(self).conntrack == old(self).conntrack
                    }
                },
    {
        let ghost before = control@;
        let ghost rules = self@.rules;
        let ghost happened = event;
        let r = match event {
            ControlEvent::Turn => control.service(&mut self.rules, decode),
            ControlEvent::Write(outcome) => control.on_write(outcome, &mut self.rules, decode),
            ControlEvent::Read(outcome) => control.on_read(outcome, &mut self.rules, decode),
        };
        let ghost set = match happened {
            ControlEvent::Turn => choose|set: Option<SetParamsView>| #[trigger]
                service_decodes(*decode, before, set) && (StepView {
                    control: control@,
                    rules: self.rules@,
                    result: r,
                }) == service_started(before, rules, set),
            ControlEvent::Write(outcome) => choose|set: Option<SetParamsView>| #[trigger]
                write_decodes(*decode, before, outcome, set) && (StepView {
                    control: control@,
                    rules: self.rules@,
                    result: r,
                }) == after_write(before, rules, outcome, set),
            ControlEvent::Read(outcome) => choose|set: Option<SetParamsView>| #[trigger]
                read_decodes(*decode, before, outcome, set) && (StepView {
                    control: control@,
                    rules: self.rules@,
                    result: r,
                }) == after_read(before, rules, outcome, set),
        };
        assert(event_decodes(*decode, before, happened, set));
        assert((StepView { control: control@, rules: self.rules@, result: r }) == control_after(
            before,
            rules,
            happened,
            set,
        ));
        if control.policy_changed() {
            self.flows = if self.rules.has_stateful() {
                Some(FlowTable::new_at(now))
            } else {
                None
            };
            self.conntrack.clear();
            assert(self@ == with_rules(old(self)@, self.rules@, now));
        } else {
            proof {
                law_rules_change_with_the_policy(before, rules, happened, set);
            }
            assert(self@ == old(self)@);
        }
        r
    }
}

} // verus!
