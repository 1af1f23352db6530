//! The orchestration engine: recursive install and configure planning.
//!
//! Shell work is described, not performed, here: each operation turns a
//! program tree into an ordered plan of [`Action`]s — commands to run and
//! notices to surface.  Dependencies come first: a program's own steps never
//! precede the plans of its not-yet-installed dependencies.  The surrounding
//! binary walks a plan through the fail-fast step runner and performs each
//! action.

use vstd::prelude::*;
use crate::program::{
    Program, spec_is_installed, spec_all_installed, are_installed,
};
use crate::steps::{steps_for_dist, spec_steps_for_dist};

verus! {

/// One planned unit of work.
#[derive(Debug, Clone, PartialEq, Eq)]
pub enum Action {
    /// Execute this shell command.
    Run(String),
    /// Surface that the named program is already installed; nothing to run.
    AlreadyInstalled(String),
    /// Surface that the named program has no step group for the current
    /// distribution; a soft failure, the operation goes on.
    NoInstructions(String),
}

/// The error taxonomy of the orchestration operations.
#[derive(Debug, PartialEq, Eq)]
pub enum ExecutionError {
    /// A command exited non-zero: fatal, the whole operation chain stops
    /// with no attempt at the remaining steps.
    StepFailed(String),
    /// No step group matches the current distribution: soft, surfaced and
    /// absorbed where it occurs.
    NoInstructionsForDistro(String),
    /// No program of the tree carries the requested name.
    ProgramNotFound(String),
}

impl ExecutionError {
    /// The line this error is surfaced as.
    pub fn message(&self) -> (r: String)
        ensures
            (self matches ExecutionError::StepFailed(c) ==> r@ == "Step failed: "@ + c@),
            (self matches ExecutionError::NoInstructionsForDistro(n) ==> r@
                == "No instructions for "@ + n@ + " for this distribution"@),
            (self matches ExecutionError::ProgramNotFound(n) ==> r@ == "No program with name "@
                + n@ + " found"@),
    {
        match self {
            ExecutionError::StepFailed(command) => {
                let mut line = "Step failed: ".to_owned();
                line.append(command.as_str());
                line
            },
            ExecutionError::NoInstructionsForDistro(name) => {
                let mut line = "No instructions for ".to_owned();
                line.append(name.as_str());
                line.append(" for this distribution");
                line
            },
            ExecutionError::ProgramNotFound(name) => {
                let mut line = "No program with name ".to_owned();
                line.append(name.as_str());
                line.append(" found");
                line
            },
        }
    }
}

/// What resolving a program's own installation group contributes to a plan:
/// the group's commands in order, or a single soft-failure notice when no
/// group matches the distribution.
pub open spec fn spec_own_steps_plan(p: Program, dist: Seq<char>) -> Seq<Action> {
    match spec_steps_for_dist(p.installation@, dist) {
        Some(st) => st.steps@.map_values(|c: String| Action::Run(c)),
        None => seq![Action::NoInstructions(p.name)],
    }
}

/// The plan for installing one program: a no-op notice when it is already
/// installed; otherwise the plans of its dependencies (when any of them is
/// not yet installed) followed by the program's own resolved steps.
pub open spec fn spec_install_plan(p: Program, dist: Seq<char>) -> Seq<Action>
    decreases p,
{
    if spec_is_installed(p) {
        seq![Action::AlreadyInstalled(p.name)]
    } else {
        (if !spec_all_installed(p.dependencies@) {
            spec_install_all_plan(p.dependencies@, dist)
        } else {
            Seq::empty()
        }) + spec_own_steps_plan(p, dist)
    }
}

/// The plan for installing every program of the list in order: for each
/// entry, first the plans of its dependency list, then the entry itself.
pub open spec fn spec_install_all_plan(s: Seq<Program>, dist: Seq<char>) -> Seq<Action>
    decreases s,
{
    if s.len() == 0 {
        Seq::empty()
    } else {
        spec_install_all_plan(s.drop_last(), dist) + (if s.last().dependencies@.len() > 0 {
            spec_install_all_plan(s.last().dependencies@, dist)
        } else {
            Seq::empty()
        }) + spec_install_plan(s.last(), dist)
    }
}

/// The plan for configuring one program: its configuration group resolved
/// for the distribution, independent of any install status.
pub open spec fn spec_configure_plan(p: Program, dist: Seq<char>) -> Seq<Action> {
    match spec_steps_for_dist(p.configuration@, dist) {
        Some(st) => st.steps@.map_values(|c: String| Action::Run(c)),
        None => seq![Action::NoInstructions(p.name)],
    }
}

/// The plan for configuring every program of the list in order: each entry
/// first, then its dependency list, recursively.
pub open spec fn spec_configure_all_plan(s: Seq<Program>, dist: Seq<char>) -> Seq<Action>
    decreases s,
{
    if s.len() == 0 {
        Seq::empty()
    } else {
        spec_configure_all_plan(s.drop_last(), dist) + spec_configure_plan(s.last(), dist) + (
        if s.last().dependencies@.len() > 0 {
            spec_configure_all_plan(s.last().dependencies@, dist)
        } else {
            Seq::empty()
        })
    }
}

/// The plan for installing each program of the list in turn, as the install
/// operation itself would be called on every entry.
pub open spec fn spec_install_missing_plan(s: Seq<Program>, dist: Seq<char>) -> Seq<Action>
    decreases s,
{
    if s.len() == 0 {
        Seq::empty()
    } else {
        spec_install_missing_plan(s.drop_last(), dist) + spec_install_plan(s.last(), dist)
    }
}

/// Append one `Run` action per command to `out`.
fn push_run_steps(commands: &Vec<String>, out: &mut Vec<Action>)
    ensures
        final(out)@ == old(out)@ + commands@.map_values(|c: String| Action::Run(c)),
{
    let mut i: usize = 0;
    proof {
        assert(out@ =~= old(out)@ + commands@.take(0).map_values(|c: String| Action::Run(c)));
    }
    while i < commands.len()
        invariant
            i <= commands@.len(),
            out@ == old(out)@ + commands@.take(i as int).map_values(|c: String| Action::Run(c)),
        decreases commands@.len() - i,
    {
        out.push(Action::Run(commands[i].clone()));
        proof {
            assert(out@ =~= old(out)@ + commands@.take(i as int + 1).map_values(
                |c: String| Action::Run(c),
            ));
        }
        i += 1;
    }
    proof {
        assert(commands@.take(commands@.len() as int) =~= commands@);
    }
}

/// Append the install plan of one program to `out`.
pub(crate) fn push_install(p: &Program, dist: &String, out: &mut Vec<Action>)
    ensures
        final(out)@ == old(out)@ + spec_install_plan(*p, dist@),
    decreases *p,
{
    if p.is_installed() {
        out.push(Action::AlreadyInstalled(p.get_name()));
        proof {
            assert(out@ =~= old(out)@ + spec_install_plan(*p, dist@));
        }
    } else {
        if !are_installed(p.get_dependencies()) {
            push_install_all(p.get_dependencies(), dist, out);
        }
        let ghost mid = out@;
        match steps_for_dist(&p.installation, dist) {
            Some(st) => {
                push_run_steps(&st.steps, out);
            },
            None => {
                out.push(Action::NoInstructions(p.get_name()));
                proof {
                    assert(out@ =~= mid + spec_own_steps_plan(*p, dist@));
                }
            },
        }
        proof {
            assert(out@ =~= old(out)@ + spec_install_plan(*p, dist@));
        }
    }
}

/// Append the install plans of every program of the list to `out`: for each
/// entry its dependency list's plans first, then the entry's own.
fn push_install_all(programs: &Vec<Program>, dist: &String, out: &mut Vec<Action>)
    ensures
        final(out)@ == old(out)@ + spec_install_all_plan(programs@, dist@),
    decreases *programs,
{
    let mut i: usize = 0;
    proof {
        assert(programs@.take(0) =~= Seq::<Program>::empty());
        assert(out@ =~= old(out)@ + spec_install_all_plan(programs@.take(0), dist@));
    }
    while i < programs.len()
        invariant
            i <= programs@.len(),
            out@ == old(out)@ + spec_install_all_plan(programs@.take(i as int), dist@),
        decreases programs@.len() - i,
    {
        if programs[i].has_dependencies() {
            push_install_all(programs[i].get_dependencies(), dist, out);
        }
        push_install(&programs[i], dist, out);
        proof {
            assert(programs@.take(i as int + 1).drop_last() =~= programs@.take(i as int));
            assert(programs@.take(i as int + 1).last() == programs@[i as int]);
            assert(out@ =~= old(out)@ + spec_install_all_plan(programs@.take(i as int + 1), dist@));
        }
        i += 1;
    }
    proof {
        assert(programs@.take(programs@.len() as int) =~= programs@);
    }
}

/// Append the configure plan of one program to `out`.
fn push_configure(p: &Program, dist: &String, out: &mut Vec<Action>)
    ensures
        final(out)@ == old(out)@ + spec_configure_plan(*p, dist@),
{
    match steps_for_dist(&p.configuration, dist) {
        Some(st) => {
            push_run_steps(&st.steps, out);
        },
        None => {
            out.push(Action::NoInstructions(p.get_name()));
            proof {
                assert(out@ =~= old(out)@ + spec_configure_plan(*p, dist@));
            }
        },
    }
}

/// Append the configure plans of every program of the list to `out`: each
/// entry first, then its dependency list, recursively.
fn push_configure_all(programs: &Vec<Program>, dist: &String, out: &mut Vec<Action>)
    ensures
        final(out)@ == old(out)@ + spec_configure_all_plan(programs@, dist@),
    decreases *programs,
{
    let mut i: usize = 0;
    proof {
        assert(programs@.take(0) =~= Seq::<Program>::empty());
        assert(out@ =~= old(out)@ + spec_configure_all_plan(programs@.take(0), dist@));
    }
    while i < programs.len()
        invariant
            i <= programs@.len(),
            out@ == old(out)@ + spec_configure_all_plan(programs@.take(i as int), dist@),
        decreases programs@.len() - i,
    {
        push_configure(&programs[i], dist, out);
        if programs[i].has_dependencies() {
            push_configure_all(programs[i].get_dependencies(), dist, out);
        }
        proof {
            assert(programs@.take(i as int + 1).drop_last() =~= programs@.take(i as int));
            assert(programs@.take(i as int + 1).last() == programs@[i as int]);
            assert(out@ =~= old(out)@ + spec_configure_all_plan(
                programs@.take(i as int + 1),
                dist@,
            ));
        }
        i += 1;
    }
    proof {
        assert(programs@.take(programs@.len() as int) =~= programs@);
    }
}

impl Program {
    /// The plan for installing this program on the distribution `dist`:
    /// a no-op notice when it is already installed, otherwise its
    /// dependencies' plans (when any dependency is missing) followed by the
    /// resolved commands of its own installation groups, or a soft-failure
    /// notice when no group matches.
    pub fn install(&self, dist: &String) -> (r: Vec<Action>)
        ensures
            r@ == spec_install_plan(*self, dist@),
    {
        let mut out: Vec<Action> = Vec::new();
        proof {
            assert(out@ =~= Seq::<Action>::empty());
        }
        push_install(self, dist, &mut out);
        out
    }

    /// The plan for configuring this program on the distribution `dist`,
    /// independent of its install status: the resolved commands of its
    /// configuration groups, or a soft-failure notice when no group matches.
    pub fn configure(&self, dist: &String) -> (r: Vec<Action>)
        ensures
            r@ == spec_configure_plan(*self, dist@),
    {
        let mut out: Vec<Action> = Vec::new();
        proof {
            assert(out@ =~= Seq::<Action>::empty());
        }
        push_configure(self, dist, &mut out);
        out
    }
}

/// The plan for installing every program of the list, dependencies first.
pub fn install_all(programs: &Vec<Program>, dist: &String) -> (r: Vec<Action>)
    ensures
        r@ == spec_install_all_plan(programs@, dist@),
{
    let mut out: Vec<Action> = Vec::new();
    proof {
        assert(out@ =~= Seq::<Action>::empty());
    }
    push_install_all(programs, dist, &mut out);
    out
}

/// The plan for configuring every program of the list and, recursively,
/// all their dependencies.
pub fn configure_all(programs: &Vec<Program>, dist: &String) -> (r: Vec<Action>)
    ensures
        r@ == spec_configure_all_plan(programs@, dist@),
{
    let mut out: Vec<Action> = Vec::new();
    proof {
        assert(out@ =~= Seq::<Action>::empty());
    }
    push_configure_all(programs, dist, &mut out);
    out
}

/// Installing an already-installed program plans no shell command at all:
/// the whole plan is the single no-op notice.
pub proof fn lemma_install_installed_no_commands(p: Program, dist: Seq<char>)
    requires
        spec_is_installed(p),
    ensures
        spec_install_plan(p, dist) == seq![Action::AlreadyInstalled(p.name)],
        forall|i: int|
            0 <= i < spec_install_plan(p, dist).len() ==> !((#[trigger] spec_install_plan(
                p,
                dist,
            )[i]) is Run),
{
    assert forall|i: int| 0 <= i < spec_install_plan(p, dist).len() implies !((
    #[trigger] spec_install_plan(p, dist)[i]) is Run) by {
        assert(spec_install_plan(p, dist)[i] == Action::AlreadyInstalled(p.name));
    }
}

/// Dependencies come first: when a program that is not installed has
/// not-yet-installed dependencies, its install plan is exactly the full
/// plan for the dependency list followed by the program's own resolved
/// steps — nothing of the program's own runs before its dependencies'.
pub proof fn lemma_install_dependencies_first(p: Program, dist: Seq<char>)
    requires
        !spec_is_installed(p),
        !spec_all_installed(p.dependencies@),
    ensures
        spec_install_plan(p, dist) == spec_install_all_plan(p.dependencies@, dist)
            + spec_own_steps_plan(p, dist),
{
}

} // verus!
