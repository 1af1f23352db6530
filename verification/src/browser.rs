//! The tree browser's state machine.
//!
//! The browser walks the program tree as nested menus: a navigation stack of
//! views, each view being one dependency list with a selectable index.  The
//! stack is kept as the chain of descend choices (`path`) plus one selection
//! per view.  Key handling is a pure transition: it updates the state and
//! tells the surrounding loop what to do — keep going, exit, or execute a
//! plan.  Drawing the screen and reading keys happen outside this crate.

use vstd::prelude::*;
use crate::engine::{Action, spec_install_plan, spec_configure_plan};
use crate::program::Program;

verus! {

/// A key event, already mapped from the terminal's encoding.
#[derive(Debug, Clone, Copy)]
pub enum Key {
    /// Leave the browser immediately, from any depth.
    Quit,
    /// Pop one view; at the root view this exits the browser.
    Ascend,
    /// Move the selection down, wrapping at the end.
    MoveDown,
    /// Move the selection up, wrapping at the start.
    MoveUp,
    /// Push the selected program's dependency list as a new view.
    Descend,
    /// Install the selected program.
    Install,
    /// Configure the selected program.
    Configure,
    /// Any other key; ignored.
    Other,
}

/// What the render loop is to do after a key was handled.
#[derive(Debug, PartialEq, Eq)]
pub enum BrowserAction {
    /// Redraw and keep going.
    Continue,
    /// Leave the browser.
    Exit,
    /// Execute this plan through the step runner, then keep going.
    Execute(Vec<Action>),
}

/// The descend chain is valid: every choice indexes into its level's list.
pub open spec fn spec_path_wf(programs: Seq<Program>, path: Seq<usize>) -> bool
    decreases path.len(),
{
    path.len() == 0 || ((path[0] as int) < programs.len() && spec_path_wf(
        programs[path[0] as int].dependencies@,
        path.drop_first(),
    ))
}

/// The program list a descend chain leads to.
pub open spec fn spec_level(programs: Seq<Program>, path: Seq<usize>) -> Seq<Program>
    decreases path.len(),
{
    if path.len() == 0 {
        programs
    } else {
        spec_level(programs[path[0] as int].dependencies@, path.drop_first())
    }
}

/// A prefix of a valid descend chain is itself valid.
proof fn lemma_path_wf_take(programs: Seq<Program>, path: Seq<usize>, k: int)
    requires
        spec_path_wf(programs, path),
        0 <= k <= path.len(),
    ensures
        spec_path_wf(programs, path.take(k)),
    decreases k,
{
    if k > 0 {
        assert(path.take(k).drop_first() =~= path.drop_first().take(k - 1));
        lemma_path_wf_take(programs[path[0] as int].dependencies@, path.drop_first(), k - 1);
    }
}

/// Descending one step deeper lands in the selected entry's dependencies.
proof fn lemma_level_push(programs: Seq<Program>, path: Seq<usize>, i: usize)
    requires
        spec_path_wf(programs, path),
        (i as int) < spec_level(programs, path).len(),
    ensures
        spec_path_wf(programs, path.push(i)),
        spec_level(programs, path.push(i)) == spec_level(programs, path)[i as int].dependencies@,
    decreases path.len(),
{
    if path.len() == 0 {
        reveal_with_fuel(spec_path_wf, 2);
        reveal_with_fuel(spec_level, 2);
        assert(path.push(i)[0] == i);
        assert(path.push(i).drop_first() =~= Seq::<usize>::empty());
    } else {
        assert(path.push(i)[0] == path[0]);
        assert(path.push(i).drop_first() =~= path.drop_first().push(i));
        lemma_level_push(programs[path[0] as int].dependencies@, path.drop_first(), i);
    }
}

/// The next selection when moving down: wrap to the top past the last
/// entry; select the first entry when nothing is selected; no change in an
/// empty view.
pub open spec fn spec_wrap_next(cur: Option<usize>, len: nat) -> Option<usize> {
    if len == 0 {
        cur
    } else {
        match cur {
            None => Some(0usize),
            Some(i) => {
                if i + 1 >= len {
                    Some(0usize)
                } else {
                    Some((i + 1) as usize)
                }
            },
        }
    }
}

/// The next selection when moving up: wrap to the bottom before the first
/// entry; select the first entry when nothing is selected; no change in an
/// empty view.
pub open spec fn spec_wrap_prev(cur: Option<usize>, len: nat) -> Option<usize> {
    if len == 0 {
        cur
    } else {
        match cur {
            None => Some(0usize),
            Some(i) => {
                if i == 0 {
                    Some((len - 1) as usize)
                } else {
                    Some((i - 1) as usize)
                }
            },
        }
    }
}

fn wrap_next(cur: Option<usize>, len: usize) -> (r: Option<usize>)
    requires
        cur matches Some(i) ==> (i as int) < len,
    ensures
        r == spec_wrap_next(cur, len as nat),
{
    if len == 0 {
        cur
    } else {
        match cur {
            None => Some(0),
            Some(i) => {
                if i + 1 >= len {
                    Some(0)
                } else {
                    Some(i + 1)
                }
            },
        }
    }
}

fn wrap_prev(cur: Option<usize>, len: usize) -> (r: Option<usize>)
    requires
        cur matches Some(i) ==> (i as int) < len,
    ensures
        r == spec_wrap_prev(cur, len as nat),
{
    if len == 0 {
        cur
    } else {
        match cur {
            None => Some(0),
            Some(i) => {
                if i == 0 {
                    Some(len - 1)
                } else {
                    Some(i - 1)
                }
            },
        }
    }
}

/// The browser's state: the root program list, the chain of descend
/// choices, and one selection per view on the stack.
pub struct App {
    programs: Vec<Program>,
    path: Vec<usize>,
    selections: Vec<Option<usize>>,
}

impl App {
    /// The root program list.
    pub closed spec fn spec_programs(self) -> Seq<Program> {
        self.programs@
    }

    /// The chain of descend choices; empty at the root view.
    pub closed spec fn spec_path(self) -> Seq<usize> {
        self.path@
    }

    /// The selection of each view on the stack, root first.
    pub closed spec fn spec_selections(self) -> Seq<Option<usize>> {
        self.selections@
    }

    /// The list shown by the current (deepest) view.
    pub open spec fn spec_current(self) -> Seq<Program> {
        spec_level(self.spec_programs(), self.spec_path())
    }

    /// The invariant: one selection per view, a valid descend chain, and
    /// every selection within its view's list.
    pub closed spec fn wf(self) -> bool {
        &&& self.selections@.len() == self.path@.len() + 1
        &&& spec_path_wf(self.programs@, self.path@)
        &&& forall|k: int|
            0 <= k < self.selections@.len() ==> ((#[trigger] self.selections@[k]) matches Some(i)
                ==> (i as int) < spec_level(self.programs@, self.path@.take(k)).len())
    }

    /// A fresh browser over the top-level program list: one root view,
    /// nothing selected yet.
    pub fn new(programs: Vec<Program>) -> (r: App)
        ensures
            r.wf(),
            r.spec_programs() == programs@,
            r.spec_path().len() == 0,
            r.spec_selections() =~= seq![None::<usize>],
    {
        let mut selections: Vec<Option<usize>> = Vec::new();
        selections.push(None);
        let r = App { programs, path: Vec::new(), selections };
        proof {
            assert(r.path@.take(0) =~= Seq::<usize>::empty());
        }
        r
    }

    /// How many views lie below the root: zero at the root view.
    pub fn depth(&self) -> (r: usize)
        ensures
            r == self.spec_path().len(),
    {
        self.path.len()
    }

    /// The current view's selection.
    pub fn selected_index(&self) -> (r: Option<usize>)
        requires
            self.wf(),
        ensures
            r == self.spec_selections().last(),
            r matches Some(i) ==> (i as int) < self.spec_current().len(),
    {
        proof {
            assert(self.path@.take(self.path@.len() as int) =~= self.path@);
        }
        self.selections[self.selections.len() - 1]
    }

    /// The list the current view shows.
    pub fn current_items(&self) -> (r: &Vec<Program>)
        requires
            self.wf(),
        ensures
            r@ == self.spec_current(),
    {
        let mut cur: &Vec<Program> = &self.programs;
        let mut k: usize = 0;
        proof {
            assert(self.path@.take(0) =~= Seq::<usize>::empty());
            assert(self.path@.skip(0) =~= self.path@);
        }
        while k < self.path.len()
            invariant
                self.wf(),
                k <= self.path@.len(),
                spec_path_wf(cur@, self.path@.skip(k as int)),
                cur@ == spec_level(self.programs@, self.path@.take(k as int)),
            decreases self.path@.len() - k,
        {
            proof {
                assert(self.path@.skip(k as int)[0] == self.path@[k as int]);
                assert(self.path@.skip(k as int).drop_first() =~= self.path@.skip(k as int + 1));
                lemma_path_wf_take(self.programs@, self.path@, k as int);
                lemma_level_push(self.programs@, self.path@.take(k as int), self.path@[k as int]);
                assert(self.path@.take(k as int).push(self.path@[k as int]) =~= self.path@.take(
                    k as int + 1,
                ));
            }
            cur = &cur[self.path[k]].dependencies;
            k += 1;
        }
        proof {
            assert(self.path@.take(self.path@.len() as int) =~= self.path@);
        }
        cur
    }

    /// Handle one key event.  Navigation updates the state in place;
    /// `Quit` exits, and `Ascend` exits only at the root view, popping one
    /// view anywhere deeper.  Install and configure leave the state alone
    /// and hand the selected program's plan back for execution.
    pub fn handle_key(&mut self, key: Key, dist: &String) -> (r: BrowserAction)
        requires
            old(self).wf(),
        ensures
            final(self).wf(),
            final(self).spec_programs() == old(self).spec_programs(),
            match key {
                Key::Quit => r is Exit && *final(self) == *old(self),
                Key::Ascend => {
                    if old(self).spec_path().len() == 0 {
                        r is Exit && *final(self) == *old(self)
                    } else {
                        r is Continue
                            && final(self).spec_path() == old(self).spec_path().drop_last()
                            && final(self).spec_selections()
                            == old(self).spec_selections().drop_last()
                    }
                },
                Key::MoveDown => r is Continue && final(self).spec_path() == old(self).spec_path()
                    && final(self).spec_selections() == old(self).spec_selections().update(
                    old(self).spec_selections().len() - 1,
                    spec_wrap_next(old(self).spec_selections().last(), old(self).spec_current().len()),
                ),
                Key::MoveUp => r is Continue && final(self).spec_path() == old(self).spec_path()
                    && final(self).spec_selections() == old(self).spec_selections().update(
                    old(self).spec_selections().len() - 1,
                    spec_wrap_prev(old(self).spec_selections().last(), old(self).spec_current().len()),
                ),
                Key::Descend => r is Continue && (match old(self).spec_selections().last() {
                    Some(i) => {
                        if old(self).spec_current()[i as int].dependencies@.len() > 0 {
                            final(self).spec_path() == old(self).spec_path().push(i)
                                && final(self).spec_selections()
                                == old(self).spec_selections().push(None)
                                && final(self).spec_current()
                                == old(self).spec_current()[i as int].dependencies@
                        } else {
                            *final(self) == *old(self)
                        }
                    },
                    None => *final(self) == *old(self),
                }),
                Key::Install => *final(self) == *old(self) && (match old(
                    self,
                ).spec_selections().last() {
                    Some(i) => (r matches BrowserAction::Execute(plan) && plan@
                        == spec_install_plan(old(self).spec_current()[i as int], dist@)),
                    None => r is Continue,
                }),
                Key::Configure => *final(self) == *old(self) && (match old(
                    self,
                ).spec_selections().last() {
                    Some(i) => (r matches BrowserAction::Execute(plan) && plan@
                        == spec_configure_plan(old(self).spec_current()[i as int], dist@)),
                    None => r is Continue,
                }),
                Key::Other => r is Continue && *final(self) == *old(self),
            },
    {
        proof {
            assert(self.path@.take(self.path@.len() as int) =~= self.path@);
        }
        match key {
            Key::Quit => BrowserAction::Exit,
            Key::Ascend => {
                if self.path.len() == 0 {
                    BrowserAction::Exit
                } else {
                    let ghost oldpath = self.path@;
                    self.path.pop();
                    self.selections.pop();
                    proof {
                        assert(self.path@ =~= oldpath.drop_last());
                        lemma_path_wf_take(
                            old(self).programs@,
                            oldpath,
                            oldpath.len() as int - 1,
                        );
                        assert(oldpath.take(oldpath.len() as int - 1) =~= self.path@);
                        assert forall|k: int|
                            0 <= k < self.selections@.len() implies ((
                        #[trigger] self.selections@[k]) matches Some(i) ==> (i as int)
                            < spec_level(self.programs@, self.path@.take(k)).len()) by {
                            assert(self.selections@[k] == old(self).selections@[k]);
                            assert(self.path@.take(k) =~= oldpath.take(k));
                        }
                    }
                    BrowserAction::Continue
                }
            },
            Key::MoveDown => {
                let len = self.current_items().len();
                let k = self.selections.len() - 1;
                let cur = self.selections[k];
                let next = wrap_next(cur, len);
                self.selections[k] = next;
                proof {
                    assert(self.path@.take(k as int) =~= self.path@);
                }
                BrowserAction::Continue
            },
            Key::MoveUp => {
                let len = self.current_items().len();
                let k = self.selections.len() - 1;
                let cur = self.selections[k];
                let next = wrap_prev(cur, len);
                self.selections[k] = next;
                proof {
                    assert(self.path@.take(k as int) =~= self.path@);
                }
                BrowserAction::Continue
            },
            Key::Descend => {
                let sel = self.selected_index();
                if let Some(i) = sel {
                    let descend = self.current_items()[i].has_dependencies();
                    if descend {
                        let ghost oldpath = self.path@;
                        self.path.push(i);
                        self.selections.push(None);
                        proof {
                            lemma_level_push(self.programs@, oldpath, i);
                            assert forall|k: int|
                                0 <= k < self.selections@.len() implies ((
                            #[trigger] self.selections@[k]) matches Some(j) ==> (j as int)
                                < spec_level(self.programs@, self.path@.take(k)).len()) by {
                                if k < self.selections@.len() - 1 {
                                    assert(self.selections@[k] == old(self).selections@[k]);
                                    assert(self.path@.take(k) =~= oldpath.take(k));
                                } else {
                                    assert(self.selections@[k] is None);
                                }
                            }
                        }
                        BrowserAction::Continue
                    } else {
                        BrowserAction::Continue
                    }
                } else {
                    BrowserAction::Continue
                }
            },
            Key::Install => {
                let sel = self.selected_index();
                match sel {
                    Some(i) => {
                        let plan = self.current_items()[i].install(dist);
                        BrowserAction::Execute(plan)
                    },
                    None => BrowserAction::Continue,
                }
            },
            Key::Configure => {
                let sel = self.selected_index();
                match sel {
                    Some(i) => {
                        let plan = self.current_items()[i].configure(dist);
                        BrowserAction::Execute(plan)
                    },
                    None => BrowserAction::Continue,
                }
            },
            Key::Other => BrowserAction::Continue,
        }
    }
}

} // verus!
