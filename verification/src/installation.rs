//! The installation side of a program: the step groups that make it present.

use vstd::prelude::*;
use crate::steps::{Steps, spec_steps_for_dist, steps_for_dist};

verus! {

/// The ordered installation step groups of a program.
pub struct Installation {
    /// The step groups, in declaration order.
    pub steps: Vec<Steps>,
}

impl Installation {
    /// The first group that applies to the distribution `dist_name`, if any.
    pub fn for_dist(&self, dist_name: String) -> (r: Option<&Steps>)
        ensures
            match r {
                Some(s) => spec_steps_for_dist(self.steps@, dist_name@) == Some(*s),
                None => spec_steps_for_dist(self.steps@, dist_name@) is None,
            },
    {
        steps_for_dist(&self.steps, &dist_name)
    }

    /// The number of step groups held.
    pub fn len(&self) -> (r: usize)
        ensures
            r == self.steps@.len(),
    {
        self.steps.len()
    }
}

} // verus!
