//! Execution steps and distro-aware step resolution.
//!
//! A [`Steps`] value is one unit of "these commands apply to these
//! distributions".  [`steps_for_dist`] scans an ordered list of groups and
//! picks the first applicable one: declaration order decides ties, so an
//! earlier wildcard group wins over a later exact match.

use vstd::prelude::*;

verus! {

/// A set of shell commands tagged with the distributions they apply to.
pub struct Steps {
    /// Distribution names this group applies to; the token `"*"` matches
    /// every distribution.
    pub distro: Vec<String>,
    /// Shell command strings, executed in order.
    pub steps: Vec<String>,
}

/// String equality, stated over the views.
pub(crate) fn string_eq(a: &String, b: &String) -> (r: bool)
    ensures
        r == (a@ == b@),
{
    a.eq(b)
}

impl Steps {
    /// A group applies to `dist` when its distribution list holds `dist`
    /// itself or the wildcard token.
    pub open spec fn spec_applies(self, dist: Seq<char>) -> bool {
        exists|i: int|
            0 <= i < self.distro@.len() && (self.distro@[i]@ == dist || self.distro@[i]@
                == crate::wildcard())
    }

    /// Whether this group applies to the distribution `dist`.
    pub fn applies(&self, dist: &String) -> (r: bool)
        ensures
            r == self.spec_applies(dist@),
    {
        let star: String = "*".to_owned();
        let mut j: usize = 0;
        while j < self.distro.len()
            invariant
                j <= self.distro@.len(),
                star@ == crate::wildcard(),
                forall|k: int|
                    0 <= k < j ==> !(#[trigger] self.distro@[k]@ == dist@ || self.distro@[k]@
                        == crate::wildcard()),
            decreases self.distro@.len() - j,
        {
            if string_eq(&self.distro[j], dist) || string_eq(&self.distro[j], &star) {
                return true;
            }
            j += 1;
        }
        false
    }

    /// The number of commands in this group.
    pub fn len(&self) -> (r: usize)
        ensures
            r == self.steps@.len(),
    {
        self.steps.len()
    }

    /// Whether this group holds no commands.
    pub fn is_empty(&self) -> (r: bool)
        ensures
            r == (self.steps@.len() == 0),
    {
        self.steps.is_empty()
    }
}

/// The first group in declaration order that applies to `dist`, if any.
/// Later groups that would also apply are never consulted.
pub open spec fn spec_steps_for_dist(list: Seq<Steps>, dist: Seq<char>) -> Option<Steps>
    decreases list.len(),
{
    if list.len() == 0 {
        None
    } else if list[0].spec_applies(dist) {
        Some(list[0])
    } else {
        spec_steps_for_dist(list.drop_first(), dist)
    }
}

/// When the head group does not apply, resolution continues in the tail.
proof fn lemma_steps_for_dist_skip(list: Seq<Steps>, dist: Seq<char>, i: int)
    requires
        0 <= i <= list.len(),
        forall|k: int| 0 <= k < i ==> !(#[trigger] list[k].spec_applies(dist)),
    ensures
        spec_steps_for_dist(list, dist) == spec_steps_for_dist(
            list.subrange(i, list.len() as int),
            dist,
        ),
    decreases i,
{
    if i > 0 {
        lemma_steps_for_dist_skip(list, dist, i - 1);
        assert(list.subrange(i - 1, list.len() as int).drop_first() =~= list.subrange(
            i,
            list.len() as int,
        ));
    } else {
        assert(list.subrange(0, list.len() as int) =~= list);
    }
}

/// Resolve the step group for the distribution `dist`: the first group in
/// list order whose distribution set holds `dist` or the wildcard.
pub fn steps_for_dist<'a>(list: &'a Vec<Steps>, dist: &String) -> (r: Option<&'a Steps>)
    ensures
        match r {
            Some(s) => spec_steps_for_dist(list@, dist@) == Some(*s),
            None => spec_steps_for_dist(list@, dist@) is None,
        },
{
    let mut i: usize = 0;
    while i < list.len()
        invariant
            i <= list@.len(),
            forall|k: int| 0 <= k < i ==> !(#[trigger] list@[k].spec_applies(dist@)),
        decreases list@.len() - i,
    {
        if list[i].applies(dist) {
            proof {
                lemma_steps_for_dist_skip(list@, dist@, i as int);
                assert(list@.subrange(i as int, list@.len() as int)[0] == list@[i as int]);
            }
            return Some(&list[i]);
        }
        i += 1;
    }
    proof {
        lemma_steps_for_dist_skip(list@, dist@, list@.len() as int);
    }
    None
}

} // verus!
