//! The dispatcher: on each observed event, mutate the attachment state
//! and plan one child command for every rule whose predicate fires, in
//! rule-declaration order.

use vstd::prelude::*;

use crate::rule::{Rule, RuleV};
use crate::state::{State, StateV};
use crate::udev::{EventV, UdevEvent};
use crate::usb::UsbEvent;

verus! {

/// A child process to be spawned: the shell, which is invoked with
/// `-c` and the command line.
#[derive(Debug)]
pub struct PlannedCommand {
    pub shell: String,
    pub command: String,
}

/// The mathematical value of a planned command.
#[verifier::ext_equal]
pub struct PlanV {
    pub shell: Seq<char>,
    pub command: Seq<char>,
}

impl View for PlannedCommand {
    type V = PlanV;

    open spec fn view(&self) -> PlanV {
        PlanV { shell: self.shell@, command: self.command@ }
    }
}

/// The command a rule runs when it fires.
pub open spec fn plan_of(r: RuleV) -> PlanV {
    PlanV { shell: r.command_shell, command: r.command }
}

/// The commands of the rules that fire on `e`, in rule order.
pub open spec fn plans_for_event(rules: Seq<RuleV>, e: EventV) -> Seq<PlanV>
    decreases rules.len(),
{
    if rules.len() == 0 {
        Seq::empty()
    } else {
        let rest = plans_for_event(rules.drop_last(), e);
        if rules.last().matches_event(e) {
            rest.push(plan_of(rules.last()))
        } else {
            rest
        }
    }
}

impl PlannedCommand {
    /// The argument vector of the child: shell, `-c`, command line.
    pub fn argv(&self) -> (r: Vec<String>)
        ensures
            r@.map_values(|s: String| s@) == seq![self@.shell, "-c"@, self@.command],
    {
        let mut v: Vec<String> = Vec::new();
        v.push(self.shell.clone());
        v.push("-c".to_owned());
        v.push(self.command.clone());
        proof {
            assert(v@.map_values(|s: String| s@) =~= seq![self@.shell, "-c"@, self@.command]);
        }
        v
    }
}

/// Plan one command for each rule that fires on `event`, in order of
/// appearance of the rules.
pub fn plan_commands(rules: &Vec<Rule>, event: &UdevEvent) -> (r: Vec<PlannedCommand>)
    ensures
        r@.map_values(|c: PlannedCommand| c@) == plans_for_event(
            rules@.map_values(|ru: Rule| ru@),
            event@,
        ),
{
    let ghost rv = rules@.map_values(|ru: Rule| ru@);
    let mut out: Vec<PlannedCommand> = Vec::new();
    proof {
        assert(out@.map_values(|c: PlannedCommand| c@) =~= plans_for_event(rv.take(0), event@));
    }
    let mut i: usize = 0;
    while i < rules.len()
        invariant
            i <= rules.len(),
            rv == rules@.map_values(|ru: Rule| ru@),
            rv.len() == rules@.len(),
            out@.map_values(|c: PlannedCommand| c@) == plans_for_event(rv.take(i as int), event@),
        decreases rules.len() - i,
    {
        let ghost prev = out@.map_values(|c: PlannedCommand| c@);
        proof {
            assert(rv[i as int] == rules@[i as int]@);
        }
        let fires = rules[i].matches_udev_event(event);
        if fires {
            out.push(
                PlannedCommand {
                    shell: rules[i].command_shell.clone(),
                    command: rules[i].command.clone(),
                },
            );
        }
        proof {
            assert(rv.take((i + 1) as int).drop_last() =~= rv.take(i as int));
            assert(rv.take((i + 1) as int).last() == rv[i as int]);
            if fires {
                assert(out@.map_values(|c: PlannedCommand| c@) =~= prev.push(
                    plan_of(rv[i as int]),
                ));
            }
        }
        i += 1;
    }
    proof {
        assert(rv.take(rules@.len() as int) =~= rv);
    }
    out
}

/// The attachment-state change an event causes: its port is recorded;
/// an `Add` slots its device, a `Remove` unslots it, any other kind
/// leaves the slots alone.
pub open spec fn step_state_spec(s: StateV, e: EventV) -> StateV {
    let s1 = s.add_port_spec(e.port);
    if e.event_kind == UsbEvent::Add {
        s1.add_and_slot_spec(e.device, e.port)
    } else if e.event_kind == UsbEvent::Remove {
        s1.rm_and_unslot_spec(e.device)
    } else {
        s1
    }
}

/// Apply one event: update the attachment state as `step_state_spec`
/// says, and return the commands of the rules that fire, in rule order.
/// The loaded rules themselves are unchanged.
pub fn handle_event(state: &mut State, event: &UdevEvent) -> (cmds: Vec<PlannedCommand>)
    requires
        old(state)@.wf(),
    ensures
        final(state)@ == step_state_spec(old(state)@, event@),
        final(state)@.wf(),
        cmds@.map_values(|c: PlannedCommand| c@) == plans_for_event(old(state)@.rules, event@),
{
    state.add_port(event.port.clone());
    if event.event_kind == UsbEvent::Add {
        state.add_and_slot_device(event.device.clone(), event.port.clone());
    } else if event.event_kind == UsbEvent::Remove {
        state.rm_and_unslot_device(event.device.clone());
    }
    plan_commands(state.loaded_rules(), event)
}

} // verus!
