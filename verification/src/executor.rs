//! Shell selection and the fail-fast step runner.
//!
//! The shell itself is spawned outside this crate; here live the decisions:
//! which shell to use once per process, and — through [`StepRunner`] — which
//! action of a plan to perform next.  The runner is fail-fast: the moment a
//! failure is reported, no further action is ever handed out.

use vstd::prelude::*;
use crate::engine::{Action, ExecutionError};

verus! {

/// The configured shell that every command of a run is executed under.
/// Chosen once per process and shared read-only from then on.
pub struct Executor {
    /// The shell binary's name, e.g. `sh`.
    pub shell: String,
}

impl Executor {
    /// A new executor bound to the given shell.
    pub fn new(shell: String) -> (r: Executor)
        ensures
            r.shell == shell,
    {
        Executor { shell }
    }
}

/// Pick the shell for this process: the override when it proved invocable
/// (`probe_ok` reports whether a harmless probe command ran in it), the
/// universally available `sh` otherwise or when no override is given.
pub fn eval_shell(opt_shell: Option<String>, probe_ok: bool) -> (r: String)
    ensures
        match opt_shell {
            Some(shell) => {
                if probe_ok {
                    r == shell
                } else {
                    r@ == "sh"@
                }
            },
            None => r@ == "sh"@,
        },
{
    match opt_shell {
        Some(shell) => {
            if probe_ok {
                shell
            } else {
                "sh".to_owned()
            }
        },
        None => "sh".to_owned(),
    }
}

/// Walks a plan of actions in order, fail-fast.  The caller performs the
/// current action and reports how it went; a reported failure stops the run
/// for good: every later request for an action yields nothing.
pub struct StepRunner {
    actions: Vec<Action>,
    pos: usize,
    failed: bool,
}

impl StepRunner {
    /// The plan this runner walks.
    pub closed spec fn spec_actions(self) -> Seq<Action> {
        self.actions@
    }

    /// How many actions have been performed successfully so far.
    pub closed spec fn spec_pos(self) -> int {
        self.pos as int
    }

    /// Whether a failure has been reported.
    pub closed spec fn spec_failed(self) -> bool {
        self.failed
    }

    /// The runner's invariant: the position never passes the plan's end,
    /// and a recorded failure points at the command that caused it.
    pub closed spec fn wf(self) -> bool {
        &&& self.pos <= self.actions@.len()
        &&& (self.failed ==> self.pos < self.actions@.len() && self.actions@[self.pos as int]
            is Run)
    }

    /// A fresh runner over the given plan, positioned at its start.
    pub fn new(actions: Vec<Action>) -> (r: StepRunner)
        ensures
            r.wf(),
            r.spec_actions() == actions@,
            r.spec_pos() == 0,
            !r.spec_failed(),
    {
        StepRunner { actions, pos: 0, failed: false }
    }

    /// The action to perform next: nothing once the plan is exhausted, and
    /// — fail-fast — nothing ever again once a failure has been reported.
    pub fn current(&self) -> (r: Option<&Action>)
        requires
            self.wf(),
        ensures
            match r {
                Some(a) => !self.spec_failed() && self.spec_pos() < self.spec_actions().len() && *a
                    == self.spec_actions()[self.spec_pos()],
                None => self.spec_failed() || self.spec_pos() >= self.spec_actions().len(),
            },
    {
        if self.failed || self.pos >= self.actions.len() {
            None
        } else {
            Some(&self.actions[self.pos])
        }
    }

    /// Report how the current action went.  On success the runner moves to
    /// the next action; on failure it stops for good.  Only a command can
    /// fail; notices always succeed.
    pub fn report(&mut self, ok: bool)
        requires
            old(self).wf(),
            !old(self).spec_failed(),
            old(self).spec_pos() < old(self).spec_actions().len(),
            !ok ==> old(self).spec_actions()[old(self).spec_pos()] is Run,
        ensures
            final(self).wf(),
            final(self).spec_actions() == old(self).spec_actions(),
            ok ==> final(self).spec_pos() == old(self).spec_pos() + 1 && !final(self).spec_failed(),
            !ok ==> final(self).spec_pos() == old(self).spec_pos() && final(self).spec_failed(),
    {
        let n = self.actions.len();
        if ok {
            proof {
                assert(self.pos < n);
            }
            self.pos += 1;
        } else {
            self.failed = true;
        }
    }

    /// Whether a failure has been reported.
    pub fn is_failed(&self) -> (r: bool)
        ensures
            r == self.spec_failed(),
    {
        self.failed
    }

    /// The fatal error of this run, if any: the command whose failure was
    /// reported, as a `StepFailed`.
    pub fn error(&self) -> (r: Option<ExecutionError>)
        requires
            self.wf(),
        ensures
            self.spec_failed() ==> (r matches Some(e) && e == (ExecutionError::StepFailed(
                self.spec_actions()[self.spec_pos()]->Run_0,
            ))),
            !self.spec_failed() ==> r is None,
    {
        if self.failed {
            match &self.actions[self.pos] {
                Action::Run(c) => Some(ExecutionError::StepFailed(c.clone())),
                Action::AlreadyInstalled(_) => None,
                Action::NoInstructions(_) => None,
            }
        } else {
            None
        }
    }
}

} // verus!
