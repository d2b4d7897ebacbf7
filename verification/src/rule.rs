//! Rules: a named match clause together with the shell and command line
//! to run when the clause fires.

pub mod matcher;

pub use matcher::{Match, MatchV};

use vstd::prelude::*;

use crate::udev::{EventV, UdevEvent};

verus! {

/// One rule of the rule file: a label, the predicate, the shell used to
/// run the command, and the command line itself.
#[derive(Debug)]
pub struct Rule {
    pub name: String,
    pub match_clause: Match,
    pub command_shell: String,
    pub command: String,
}

/// The mathematical value of a rule.
#[verifier::ext_equal]
pub struct RuleV {
    pub name: Seq<char>,
    pub match_clause: MatchV,
    pub command_shell: Seq<char>,
    pub command: Seq<char>,
}

impl View for Rule {
    type V = RuleV;

    open spec fn view(&self) -> RuleV {
        RuleV {
            name: self.name@,
            match_clause: self.match_clause@,
            command_shell: self.command_shell@,
            command: self.command@,
        }
    }
}

impl RuleV {
    /// A rule fires on an event exactly when its match clause does.
    pub open spec fn matches_event(self, e: EventV) -> bool {
        self.match_clause.matches_event(e)
    }
}

impl Rule {
    /// Whether this rule fires on the event.
    pub fn matches_udev_event(&self, event: &UdevEvent) -> (r: bool)
        ensures
            r == self@.matches_event(event@),
    {
        self.match_clause.matches_udev_event(event)
    }
}

/// The rules of one rule document, in order of appearance.
#[derive(Debug)]
pub struct Rules {
    pub rules: Vec<Rule>,
}

} // verus!
