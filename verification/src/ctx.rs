//! The shared command context: what the command line selected, carried
//! from the argument parser to the mode runners.

use vstd::prelude::*;

use crate::printer::{ColorChoice, OutFormat};

verus! {

/// Options every mode shares.
#[derive(Debug)]
pub struct Ctx {
    pub verbose: u8,
    /// Whether trace logging replaces human-facing output.
    pub tracing: bool,
    pub format: OutFormat,
    pub color: ColorChoice,
    pub num_events: usize,
}

impl Default for Ctx {
    fn default() -> (r: Self)
        ensures
            r.verbose == 0,
            !r.tracing,
            r.format == OutFormat::Yaml,
            r.color == ColorChoice::Auto,
            r.num_events == 0,
    {
        Ctx {
            verbose: 0,
            tracing: false,
            format: OutFormat::Yaml,
            color: ColorChoice::Auto,
            num_events: 0,
        }
    }
}

impl Ctx {
    /// Record how many events a listen run should observe: zero asks
    /// for no bound, which the runner reads as the largest count.
    pub fn set_num_events(&mut self, n: usize)
        ensures
            final(self).num_events == if n == 0 {
                usize::MAX
            } else {
                n
            },
            final(self).verbose == old(self).verbose,
            final(self).tracing == old(self).tracing,
            final(self).format == old(self).format,
            final(self).color == old(self).color,
    {
        if n == 0 {
            self.num_events = usize::MAX;
        } else {
            self.num_events = n;
        }
    }
}

} // verus!
