//! Flat helpers over a top-level program list.

use vstd::prelude::*;
use crate::engine::{Action, push_install, spec_install_missing_plan};
use crate::program::{Program, spec_is_installed};

verus! {

/// The plan for calling install on each program of the list in turn.
pub fn install_missing(programs: &Vec<Program>, dist: &String) -> (r: Vec<Action>)
    ensures
        r@ == spec_install_missing_plan(programs@, dist@),
{
    let mut out: Vec<Action> = Vec::new();
    let mut i: usize = 0;
    proof {
        assert(programs@.take(0) =~= Seq::<Program>::empty());
        assert(out@ =~= spec_install_missing_plan(programs@.take(0), dist@));
    }
    while i < programs.len()
        invariant
            i <= programs@.len(),
            out@ == spec_install_missing_plan(programs@.take(i as int), dist@),
        decreases programs@.len() - i,
    {
        push_install(&programs[i], dist, &mut out);
        proof {
            assert(programs@.take(i as int + 1).drop_last() =~= programs@.take(i as int));
            assert(programs@.take(i as int + 1).last() == programs@[i as int]);
        }
        i += 1;
    }
    proof {
        assert(programs@.take(programs@.len() as int) =~= programs@);
    }
    out
}

/// How many programs of the list itself — dependencies not walked — read
/// as missing.
pub open spec fn spec_count_missing_flat(s: Seq<Program>) -> nat
    decreases s,
{
    if s.len() == 0 {
        0
    } else {
        spec_count_missing_flat(s.drop_last()) + (if spec_is_installed(s.last()) {
            0nat
        } else {
            1nat
        })
    }
}

/// Count the top-level programs that read as missing; nested dependencies
/// are weighed only through their parents' installed state.
pub fn count_missing(programs: &Vec<Program>) -> (r: u8)
    requires
        programs@.len() <= u8::MAX,
    ensures
        r == spec_count_missing_flat(programs@),
{
    let mut counter: u8 = 0;
    let mut i: usize = 0;
    proof {
        assert(programs@.take(0) =~= Seq::<Program>::empty());
    }
    while i < programs.len()
        invariant
            i <= programs@.len(),
            programs@.len() <= u8::MAX,
            counter == spec_count_missing_flat(programs@.take(i as int)),
            counter <= i,
        decreases programs@.len() - i,
    {
        if !programs[i].is_installed() {
            counter += 1;
        }
        proof {
            assert(programs@.take(i as int + 1).drop_last() =~= programs@.take(i as int));
            assert(programs@.take(i as int + 1).last() == programs@[i as int]);
        }
        i += 1;
    }
    proof {
        assert(programs@.take(programs@.len() as int) =~= programs@);
    }
    counter
}

} // verus!
