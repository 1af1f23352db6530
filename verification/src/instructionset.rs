//! An ordered collection of step groups with distro-aware resolution.

use vstd::prelude::*;
use crate::steps::{Steps, spec_steps_for_dist, steps_for_dist};

verus! {

/// An ordered list of step groups; resolution picks the first group that
/// applies to the distribution asked for.
pub struct InstructionSet {
    /// The step groups, in declaration order.
    pub execution_steps: Vec<Steps>,
}

impl InstructionSet {
    /// An empty instruction set.
    pub fn new() -> (r: InstructionSet)
        ensures
            r.execution_steps@.len() == 0,
    {
        InstructionSet { execution_steps: Vec::new() }
    }

    /// The first group that applies to the distribution `dist_name`, if any.
    pub fn for_dist(&self, dist_name: String) -> (r: Option<&Steps>)
        ensures
            match r {
                Some(s) => spec_steps_for_dist(self.execution_steps@, dist_name@) == Some(*s),
                None => spec_steps_for_dist(self.execution_steps@, dist_name@) is None,
            },
    {
        steps_for_dist(&self.execution_steps, &dist_name)
    }

    /// The number of step groups held.
    pub fn len(&self) -> (r: usize)
        ensures
            r == self.execution_steps@.len(),
    {
        self.execution_steps.len()
    }

    /// Whether no step group is held.
    pub fn is_empty(&self) -> (r: bool)
        ensures
            r == (self.execution_steps@.len() == 0),
    {
        self.execution_steps.is_empty()
    }

    /// Append a step group after the existing ones.
    pub fn push(&mut self, step: Steps)
        ensures
            final(self).execution_steps@ == old(self).execution_steps@.push(step),
    {
        self.execution_steps.push(step);
    }
}

} // verus!
