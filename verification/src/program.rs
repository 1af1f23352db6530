//! The program tree model and the traversals over it.
//!
//! A [`Program`] is a named installable unit: ordered installation and
//! configuration step groups, a list of dependent programs (an owned tree,
//! not a graph) and a transient [`Status`] that is computed once per run by
//! probing the host shell.  A program counts as installed only when its own
//! status says so and every dependency is, recursively, installed too.

use vstd::prelude::*;
use crate::steps::{Steps, string_eq};

verus! {

/// A program's installation status.  Never read from the configuration file;
/// always determined at run time by probing.
#[derive(Clone, Copy, PartialEq, Eq, Structural, Debug)]
pub enum Status {
    Installed,
    Missing,
}

/// The status a probe outcome maps to: a resolvable name counts as installed.
pub open spec fn spec_status_of(probe_ok: bool) -> Status {
    if probe_ok {
        Status::Installed
    } else {
        Status::Missing
    }
}

/// A named installable unit and the root of its dependency subtree.
pub struct Program {
    /// Identifier, unique by convention; duplicates resolve to the first
    /// match in search order.
    pub name: String,
    /// Ordered step groups that make the program present.
    pub installation: Vec<Steps>,
    /// Ordered step groups run after installation, whatever its outcome.
    pub configuration: Vec<Steps>,
    /// Dependent programs, exclusively owned by this node.
    pub dependencies: Vec<Program>,
    /// Transient status, set by the probe pass.
    pub status: Status,
}

/// A program is installed when its own status is `Installed` and every
/// dependency is, recursively, installed as well.
pub open spec fn spec_is_installed(p: Program) -> bool
    decreases p,
{
    p.status == Status::Installed && spec_all_installed(p.dependencies@)
}

/// Every program of the list is installed.
pub open spec fn spec_all_installed(s: Seq<Program>) -> bool
    decreases s,
{
    forall|i: int| 0 <= i < s.len() ==> spec_is_installed(#[trigger] s[i])
}

/// The number of nodes of the whole subtree rooted at `p`, itself included.
pub open spec fn spec_count(p: Program) -> nat
    decreases p,
{
    1 + spec_count_all(p.dependencies@)
}

/// The total number of nodes of all the trees of the list.
pub open spec fn spec_count_all(s: Seq<Program>) -> nat
    decreases s,
{
    if s.len() == 0 {
        0
    } else {
        spec_count_all(s.drop_last()) + spec_count(s.last())
    }
}

/// How many nodes of the list's trees read as missing.  Each node is visited
/// once and contributes one when `spec_is_installed` is false of it; a node
/// whose only fault is a missing descendant therefore counts as well as the
/// descendant itself.
pub open spec fn spec_count_missing_all(s: Seq<Program>) -> nat
    decreases s,
{
    if s.len() == 0 {
        0
    } else {
        spec_count_missing_all(s.drop_last()) + (if spec_is_installed(s.last()) {
            0nat
        } else {
            1nat
        }) + spec_count_missing_all(s.last().dependencies@)
    }
}

/// Growing the prefix of a list grows its node count by the count of the
/// element taken in.
proof fn lemma_count_all_take_step(s: Seq<Program>, i: int)
    requires
        0 <= i < s.len(),
    ensures
        spec_count_all(s.take(i + 1)) == spec_count_all(s.take(i)) + spec_count(s[i]),
{
    assert(s.take(i + 1).drop_last() =~= s.take(i));
}

/// The node count of a prefix never exceeds the count of the whole list.
proof fn lemma_count_all_take_le(s: Seq<Program>, i: int)
    requires
        0 <= i <= s.len(),
    ensures
        spec_count_all(s.take(i)) <= spec_count_all(s),
    decreases s.len() - i,
{
    if i == s.len() {
        assert(s.take(i) =~= s);
    } else {
        lemma_count_all_take_step(s, i);
        lemma_count_all_take_le(s, i + 1);
    }
}

/// As for counts: one more element of the prefix adds its own missing count.
proof fn lemma_count_missing_all_take_step(s: Seq<Program>, i: int)
    requires
        0 <= i < s.len(),
    ensures
        spec_count_missing_all(s.take(i + 1)) == spec_count_missing_all(s.take(i)) + (
        if spec_is_installed(s[i]) {
            0nat
        } else {
            1nat
        }) + spec_count_missing_all(s[i].dependencies@),
{
    assert(s.take(i + 1).drop_last() =~= s.take(i));
}

/// The missing count of a prefix never exceeds the count of the whole list.
proof fn lemma_count_missing_all_take_le(s: Seq<Program>, i: int)
    requires
        0 <= i <= s.len(),
    ensures
        spec_count_missing_all(s.take(i)) <= spec_count_missing_all(s),
    decreases s.len() - i,
{
    if i == s.len() {
        assert(s.take(i) =~= s);
    } else {
        lemma_count_missing_all_take_step(s, i);
        lemma_count_missing_all_take_le(s, i + 1);
    }
}

impl Program {
    /// The dependency list of this program.
    pub fn get_dependencies(&self) -> (r: &Vec<Program>)
        ensures
            *r == self.dependencies,
    {
        &self.dependencies
    }

    /// A copy of this program's name.
    pub fn get_name(&self) -> (r: String)
        ensures
            r == self.name,
    {
        self.name.clone()
    }

    /// The status that a probe outcome for this program's name stands for.
    pub fn check(&self, probe_ok: bool) -> (r: Status)
        ensures
            r == spec_status_of(probe_ok),
    {
        if probe_ok {
            Status::Installed
        } else {
            Status::Missing
        }
    }

    /// True when the `configuration` list is not empty.
    pub fn has_configuration_steps(&self) -> (r: bool)
        ensures
            r == (self.configuration@.len() > 0),
    {
        self.configuration.len() > 0
    }

    /// True when the `installation` list is not empty.
    pub fn has_installation_steps(&self) -> (r: bool)
        ensures
            r == (self.installation@.len() > 0),
    {
        self.installation.len() > 0
    }

    /// True when the `dependencies` list is not empty.
    pub fn has_dependencies(&self) -> (r: bool)
        ensures
            r == (self.dependencies@.len() > 0),
    {
        self.dependencies.len() > 0
    }

    /// True when this program and, recursively, all its dependencies are
    /// installed.
    pub fn is_installed(&self) -> (r: bool)
        ensures
            r == spec_is_installed(*self),
        decreases *self,
    {
        let own = match self.status {
            Status::Installed => true,
            Status::Missing => false,
        };
        own && are_installed(&self.dependencies)
    }

    /// This program's status as the literal it is printed as.
    pub fn get_status_as_string(&self) -> (r: String)
        ensures
            spec_is_installed(*self) ==> r@ == "Installed"@,
            !spec_is_installed(*self) ==> r@ == "Missing"@,
    {
        if self.is_installed() {
            "Installed".to_owned()
        } else {
            "Missing".to_owned()
        }
    }
}

/// True when every program of the list is installed; true of an empty list.
pub fn are_installed(programs: &Vec<Program>) -> (r: bool)
    ensures
        r == spec_all_installed(programs@),
    decreases *programs,
{
    let mut i: usize = 0;
    while i < programs.len()
        invariant
            i <= programs@.len(),
            forall|k: int| 0 <= k < i ==> spec_is_installed(#[trigger] programs@[k]),
        decreases programs@.len() - i,
    {
        if !programs[i].is_installed() {
            return false;
        }
        i += 1;
    }
    true
}

/// The total number of nodes of all the trees, every nested dependency
/// included.
pub fn count(programs: &Vec<Program>) -> (r: u8)
    requires
        spec_count_all(programs@) <= u8::MAX,
    ensures
        r == spec_count_all(programs@),
    decreases *programs,
{
    let mut counter: u8 = 0;
    let mut i: usize = 0;
    proof {
        assert(programs@.take(0) =~= Seq::<Program>::empty());
    }
    while i < programs.len()
        invariant
            i <= programs@.len(),
            spec_count_all(programs@) <= u8::MAX,
            counter == spec_count_all(programs@.take(i as int)),
        decreases programs@.len() - i,
    {
        proof {
            lemma_count_all_take_step(programs@, i as int);
            lemma_count_all_take_le(programs@, i as int + 1);
        }
        counter += 1;
        if programs[i].has_dependencies() {
            counter += count(programs[i].get_dependencies());
        }
        i += 1;
    }
    proof {
        assert(programs@.take(programs@.len() as int) =~= programs@);
    }
    counter
}

/// How many nodes of all the trees read as missing; see
/// [`spec_count_missing_all`] for what a node contributes.
pub fn count_missing(programs: &Vec<Program>) -> (r: u8)
    requires
        spec_count_missing_all(programs@) <= u8::MAX,
    ensures
        r == spec_count_missing_all(programs@),
    decreases *programs,
{
    let mut counter: u8 = 0;
    let mut i: usize = 0;
    proof {
        assert(programs@.take(0) =~= Seq::<Program>::empty());
    }
    while i < programs.len()
        invariant
            i <= programs@.len(),
            spec_count_missing_all(programs@) <= u8::MAX,
            counter == spec_count_missing_all(programs@.take(i as int)),
        decreases programs@.len() - i,
    {
        proof {
            lemma_count_missing_all_take_step(programs@, i as int);
            lemma_count_missing_all_take_le(programs@, i as int + 1);
        }
        if !programs[i].is_installed() {
            counter += 1;
        }
        if programs[i].has_dependencies() {
            counter += count_missing(programs[i].get_dependencies());
        }
        i += 1;
    }
    proof {
        assert(programs@.take(programs@.len() as int) =~= programs@);
    }
    counter
}

/// Two programs agree on everything but statuses: same name, same step
/// groups, and dependency trees of the same shape, recursively.
pub open spec fn spec_same_shape(a: Program, b: Program) -> bool
    decreases a,
{
    &&& b.name == a.name
    &&& b.installation == a.installation
    &&& b.configuration == a.configuration
    &&& b.dependencies@.len() == a.dependencies@.len()
    &&& forall|i: int|
        0 <= i < a.dependencies@.len() ==> spec_same_shape(
            #[trigger] a.dependencies@[i],
            b.dependencies@[i],
        )
}

/// The statuses of the whole subtree in pre-order: the node itself first,
/// then each dependency subtree in turn.
pub open spec fn spec_statuses(p: Program) -> Seq<Status>
    decreases p,
{
    seq![p.status] + spec_statuses_all(p.dependencies@)
}

/// The statuses of all the trees of the list, in pre-order.
pub open spec fn spec_statuses_all(s: Seq<Program>) -> Seq<Status>
    decreases s,
{
    if s.len() == 0 {
        Seq::empty()
    } else {
        spec_statuses_all(s.drop_last()) + spec_statuses(s.last())
    }
}

/// Growing the prefix appends the statuses of the element taken in.
proof fn lemma_statuses_all_take_step(s: Seq<Program>, i: int)
    requires
        0 <= i < s.len(),
    ensures
        spec_statuses_all(s.take(i + 1)) == spec_statuses_all(s.take(i)) + spec_statuses(s[i]),
{
    assert(s.take(i + 1).drop_last() =~= s.take(i));
}

/// A list's pre-order name sequence has one entry per node.
proof fn lemma_names_all_len(s: Seq<Program>)
    ensures
        spec_names_all(s).len() == spec_count_all(s),
    decreases s,
{
    if s.len() > 0 {
        lemma_names_all_len(s.drop_last());
        lemma_names_len(s.last());
    }
}

/// A subtree's pre-order name sequence has one entry per node.
proof fn lemma_names_len(p: Program)
    ensures
        spec_names(p).len() == spec_count(p),
    decreases p,
{
    lemma_names_all_len(p.dependencies@);
}

/// A list's pre-order status-line sequence has one entry per node.
proof fn lemma_status_lines_all_len(s: Seq<Program>)
    ensures
        spec_status_lines_all(s).len() == spec_count_all(s),
    decreases s,
{
    if s.len() > 0 {
        lemma_status_lines_all_len(s.drop_last());
        lemma_status_lines_len(s.last());
    }
}

/// A subtree's pre-order status-line sequence has one entry per node.
proof fn lemma_status_lines_len(p: Program)
    ensures
        spec_status_lines(p).len() == spec_count(p),
    decreases p,
{
    lemma_status_lines_all_len(p.dependencies@);
}

impl Program {
    /// Set the status of this program and, recursively, of every dependency
    /// from the probe outcomes, which hold one entry per node in pre-order
    /// starting at `start`.  Returns the index just past the subtree's
    /// entries.  Only statuses change; names, step groups and the tree shape
    /// stay as they were.
    pub fn set_status(&mut self, probes: &Vec<bool>, start: usize) -> (next: usize)
        requires
            start + spec_count(*old(self)) <= probes@.len(),
        ensures
            next == start + spec_count(*old(self)),
            spec_same_shape(*old(self), *final(self)),
            spec_statuses(*final(self)) == probes@.subrange(start as int, next as int).map_values(
                |b: bool| spec_status_of(b),
            ),
        decreases *old(self),
    {
        let n = probes.len();
        proof {
            assert(spec_count(*old(self)) >= 1);
            assert(start + 1 <= n);
        }
        let st = self.check(probes[start]);
        self.status = st;
        let mut next: usize = start + 1;
        let mut i: usize = 0;
        proof {
            assert(old(self).dependencies@.take(0) =~= Seq::<Program>::empty());
            assert(self.dependencies@.take(0) =~= Seq::<Program>::empty());
            assert(spec_statuses_all(self.dependencies@.take(0)) =~= probes@.subrange(
                start + 1,
                start + 1,
            ).map_values(|b: bool| spec_status_of(b)));
        }
        while i < self.dependencies.len()
            invariant
                i <= self.dependencies@.len(),
                self.dependencies@.len() == old(self).dependencies@.len(),
                self.name == old(self).name,
                self.installation == old(self).installation,
                self.configuration == old(self).configuration,
                self.status == spec_status_of(probes@[start as int]),
                start + spec_count(*old(self)) <= probes@.len(),
                start < probes@.len(),
                forall|k: int|
                    i <= k < self.dependencies@.len() ==> #[trigger] self.dependencies@[k] == old(
                        self,
                    ).dependencies@[k],
                forall|k: int|
                    0 <= k < i ==> spec_same_shape(
                        #[trigger] old(self).dependencies@[k],
                        self.dependencies@[k],
                    ),
                next == start + 1 + spec_count_all(old(self).dependencies@.take(i as int)),
                spec_statuses_all(self.dependencies@.take(i as int)) == probes@.subrange(
                    start + 1,
                    next as int,
                ).map_values(|b: bool| spec_status_of(b)),
            decreases self.dependencies@.len() - i,
        {
            proof {
                lemma_count_all_take_step(old(self).dependencies@, i as int);
                lemma_count_all_take_le(old(self).dependencies@, i as int + 1);
            }
            let ghost pre = self.dependencies@;
            let mut d = self.dependencies.remove(i);
            let n2 = d.set_status(probes, next);
            self.dependencies.insert(i, d);
            proof {
                assert(self.dependencies@ =~= pre.update(i as int, self.dependencies@[i as int]));
                assert(self.dependencies@.take(i as int) =~= pre.take(i as int));
                lemma_statuses_all_take_step(self.dependencies@, i as int);
                assert(self.dependencies@.take(i as int + 1).drop_last() =~= self.dependencies@.take(
                    i as int,
                ));
                assert(spec_statuses_all(self.dependencies@.take(i as int + 1)) =~= probes@.subrange(
                    start + 1,
                    n2 as int,
                ).map_values(|b: bool| spec_status_of(b)));
            }
            next = n2;
            i += 1;
        }
        proof {
            assert(old(self).dependencies@.take(self.dependencies@.len() as int) =~= old(
                self,
            ).dependencies@);
            assert(self.dependencies@.take(self.dependencies@.len() as int)
                =~= self.dependencies@);
            assert(spec_statuses(*self) =~= probes@.subrange(start as int, next as int).map_values(
                |b: bool| spec_status_of(b),
            ));
        }
        next
    }
}

/// Set the status of every program of the list and of all their
/// dependencies, from probe outcomes given in pre-order, one per node.
pub fn set_status_all(programs: &mut Vec<Program>, probes: &Vec<bool>)
    requires
        spec_count_all(old(programs)@) <= probes@.len(),
    ensures
        final(programs)@.len() == old(programs)@.len(),
        forall|k: int|
            0 <= k < old(programs)@.len() ==> spec_same_shape(
                #[trigger] old(programs)@[k],
                final(programs)@[k],
            ),
        spec_statuses_all(final(programs)@) == probes@.subrange(
            0,
            spec_count_all(old(programs)@) as int,
        ).map_values(|b: bool| spec_status_of(b)),
{
    let mut next: usize = 0;
    let mut i: usize = 0;
    proof {
        assert(old(programs)@.take(0) =~= Seq::<Program>::empty());
        assert(programs@.take(0) =~= Seq::<Program>::empty());
        assert(spec_statuses_all(programs@.take(0)) =~= probes@.subrange(0, 0).map_values(
            |b: bool| spec_status_of(b),
        ));
    }
    while i < programs.len()
        invariant
            i <= programs@.len(),
            programs@.len() == old(programs)@.len(),
            spec_count_all(old(programs)@) <= probes@.len(),
            forall|k: int|
                i <= k < programs@.len() ==> #[trigger] programs@[k] == old(programs)@[k],
            forall|k: int|
                0 <= k < i ==> spec_same_shape(#[trigger] old(programs)@[k], programs@[k]),
            next == spec_count_all(old(programs)@.take(i as int)),
            spec_statuses_all(programs@.take(i as int)) == probes@.subrange(
                0,
                next as int,
            ).map_values(|b: bool| spec_status_of(b)),
        decreases programs@.len() - i,
    {
        proof {
            lemma_count_all_take_step(old(programs)@, i as int);
            lemma_count_all_take_le(old(programs)@, i as int + 1);
        }
        let ghost pre = programs@;
        let mut p = programs.remove(i);
        let n2 = p.set_status(probes, next);
        programs.insert(i, p);
        proof {
            assert(programs@ =~= pre.update(i as int, programs@[i as int]));
            assert(programs@.take(i as int) =~= pre.take(i as int));
            lemma_statuses_all_take_step(programs@, i as int);
            assert(programs@.take(i as int + 1).drop_last() =~= programs@.take(i as int));
            assert(spec_statuses_all(programs@.take(i as int + 1)) =~= probes@.subrange(
                0,
                n2 as int,
            ).map_values(|b: bool| spec_status_of(b)));
        }
        next = n2;
        i += 1;
    }
    proof {
        assert(old(programs)@.take(programs@.len() as int) =~= old(programs)@);
        assert(programs@.take(programs@.len() as int) =~= programs@);
    }
}

/// The names of the whole subtree, in pre-order.
pub open spec fn spec_names(p: Program) -> Seq<Seq<char>>
    decreases p,
{
    seq![p.name@] + spec_names_all(p.dependencies@)
}

/// The names of all the trees of the list, in pre-order.
pub open spec fn spec_names_all(s: Seq<Program>) -> Seq<Seq<char>>
    decreases s,
{
    if s.len() == 0 {
        Seq::empty()
    } else {
        spec_names_all(s.drop_last()) + spec_names(s.last())
    }
}

/// The line a node is listed as: its name, a comma, and its status literal.
pub open spec fn spec_status_line(p: Program) -> Seq<char> {
    p.name@ + ","@ + (if spec_is_installed(p) {
        "Installed"@
    } else {
        "Missing"@
    })
}

/// The status lines of the whole subtree, in pre-order.
pub open spec fn spec_status_lines(p: Program) -> Seq<Seq<char>>
    decreases p,
{
    seq![spec_status_line(p)] + spec_status_lines_all(p.dependencies@)
}

/// The status lines of all the trees of the list, in pre-order.
pub open spec fn spec_status_lines_all(s: Seq<Program>) -> Seq<Seq<char>>
    decreases s,
{
    if s.len() == 0 {
        Seq::empty()
    } else {
        spec_status_lines_all(s.drop_last()) + spec_status_lines(s.last())
    }
}

/// One line per node: every name in pre-order, children directly after
/// their parent and before the parent's later siblings.
pub fn name_lines(programs: &Vec<Program>) -> (r: Vec<String>)
    ensures
        r.deep_view() == spec_names_all(programs@),
        r@.len() == spec_count_all(programs@),
{
    proof {
        lemma_names_all_len(programs@);
    }
    let mut out: Vec<String> = Vec::new();
    proof {
        assert(out.deep_view() =~= Seq::<Seq<char>>::empty());
    }
    push_name_lines(programs, &mut out);
    out
}

/// Append the pre-order names of all the trees of the list to `out`.
fn push_name_lines(programs: &Vec<Program>, out: &mut Vec<String>)
    ensures
        final(out).deep_view() == old(out).deep_view() + spec_names_all(programs@),
    decreases *programs,
{
    let mut i: usize = 0;
    proof {
        assert(programs@.take(0) =~= Seq::<Program>::empty());
        assert(out.deep_view() =~= old(out).deep_view() + spec_names_all(programs@.take(0)));
    }
    while i < programs.len()
        invariant
            i <= programs@.len(),
            out.deep_view() == old(out).deep_view() + spec_names_all(programs@.take(i as int)),
        decreases programs@.len() - i,
    {
        let ghost pre = out.deep_view();
        out.push(programs[i].get_name());
        proof {
            assert(out.deep_view() =~= pre + seq![programs@[i as int].name@]);
        }
        if programs[i].has_dependencies() {
            push_name_lines(programs[i].get_dependencies(), out);
        } else {
            proof {
                assert(spec_names_all(programs@[i as int].dependencies@) =~= Seq::<
                    Seq<char>,
                >::empty());
            }
        }
        proof {
            assert(programs@.take(i as int + 1).drop_last() =~= programs@.take(i as int));
            assert(programs@.take(i as int + 1).last() == programs@[i as int]);
            assert(spec_names_all(programs@.take(i as int + 1)) == spec_names_all(
                programs@.take(i as int),
            ) + spec_names(programs@[i as int]));
            assert(out.deep_view() =~= old(out).deep_view() + spec_names_all(
                programs@.take(i as int + 1),
            ));
        }
        i += 1;
    }
    proof {
        assert(programs@.take(programs@.len() as int) =~= programs@);
    }
}

/// One line per node in pre-order: the name, a comma, and `Installed` or
/// `Missing` as [`spec_is_installed`] reads the node.
pub fn status_lines(programs: &Vec<Program>) -> (r: Vec<String>)
    ensures
        r.deep_view() == spec_status_lines_all(programs@),
        r@.len() == spec_count_all(programs@),
{
    proof {
        lemma_status_lines_all_len(programs@);
    }
    let mut out: Vec<String> = Vec::new();
    proof {
        assert(out.deep_view() =~= Seq::<Seq<char>>::empty());
    }
    push_status_lines(programs, &mut out);
    out
}

/// Append the pre-order status lines of all the trees of the list to `out`.
fn push_status_lines(programs: &Vec<Program>, out: &mut Vec<String>)
    ensures
        final(out).deep_view() == old(out).deep_view() + spec_status_lines_all(programs@),
    decreases *programs,
{
    let mut i: usize = 0;
    proof {
        assert(programs@.take(0) =~= Seq::<Program>::empty());
        assert(out.deep_view() =~= old(out).deep_view() + spec_status_lines_all(
            programs@.take(0),
        ));
    }
    while i < programs.len()
        invariant
            i <= programs@.len(),
            out.deep_view() == old(out).deep_view() + spec_status_lines_all(
                programs@.take(i as int),
            ),
        decreases programs@.len() - i,
    {
        let ghost pre = out.deep_view();
        let mut line = programs[i].get_name();
        line.append(",");
        let status = programs[i].get_status_as_string();
        line.append(status.as_str());
        out.push(line);
        proof {
            assert(out.deep_view() =~= pre + seq![spec_status_line(programs@[i as int])]);
        }
        if programs[i].has_dependencies() {
            push_status_lines(programs[i].get_dependencies(), out);
        } else {
            proof {
                assert(spec_status_lines_all(programs@[i as int].dependencies@) =~= Seq::<
                    Seq<char>,
                >::empty());
            }
        }
        proof {
            assert(programs@.take(i as int + 1).drop_last() =~= programs@.take(i as int));
            assert(programs@.take(i as int + 1).last() == programs@[i as int]);
            assert(spec_status_lines_all(programs@.take(i as int + 1)) == spec_status_lines_all(
                programs@.take(i as int),
            ) + spec_status_lines(programs@[i as int]));
            assert(out.deep_view() =~= old(out).deep_view() + spec_status_lines_all(
                programs@.take(i as int + 1),
            ));
        }
        i += 1;
    }
    proof {
        assert(programs@.take(programs@.len() as int) =~= programs@);
    }
}

/// A program without dependencies is installed exactly when its own status
/// says so.
pub proof fn lemma_installed_no_dependencies(p: Program)
    requires
        p.dependencies@.len() == 0,
    ensures
        spec_is_installed(p) == (p.status == Status::Installed),
{
}

/// `d` stands somewhere below `p`: it is a dependency of `p`, directly or
/// through intermediate dependencies.
pub open spec fn spec_is_descendant(p: Program, d: Program) -> bool
    decreases p,
{
    exists|i: int|
        0 <= i < p.dependencies@.len() && ((#[trigger] p.dependencies@[i]) == d
            || spec_is_descendant(p.dependencies@[i], d))
}

/// A program is never installed while any of its transitive dependencies is
/// not installed, whatever the program's own status.
pub proof fn lemma_not_installed_by_dependency(p: Program, d: Program)
    requires
        spec_is_descendant(p, d),
        !spec_is_installed(d),
    ensures
        !spec_is_installed(p),
    decreases p,
{
    let i = choose|i: int|
        0 <= i < p.dependencies@.len() && ((#[trigger] p.dependencies@[i]) == d
            || spec_is_descendant(p.dependencies@[i], d));
    if p.dependencies@[i] == d {
        assert(!spec_is_installed(p.dependencies@[i]));
    } else {
        lemma_not_installed_by_dependency(p.dependencies@[i], d);
    }
}

/// The first program named `name` in pre-order: each top-level entry first,
/// then its dependencies, recursively, before its later siblings.
pub open spec fn spec_search(name: Seq<char>, programs: Seq<Program>) -> Option<Program>
    decreases programs,
{
    if programs.len() == 0 {
        None
    } else if programs[0].name@ == name {
        Some(programs[0])
    } else {
        match spec_search(name, programs[0].dependencies@) {
            Some(p) => Some(p),
            None => spec_search(name, programs.drop_first()),
        }
    }
}

/// When the first tree holds no match, the search continues in the rest.
proof fn lemma_search_skip(name: Seq<char>, programs: Seq<Program>, i: int)
    requires
        0 <= i <= programs.len(),
        forall|k: int|
            0 <= k < i ==> (#[trigger] programs[k]).name@ != name && spec_search(
                name,
                programs[k].dependencies@,
            ) is None,
    ensures
        spec_search(name, programs) == spec_search(
            name,
            programs.subrange(i, programs.len() as int),
        ),
    decreases i,
{
    if i > 0 {
        lemma_search_skip(name, programs, i - 1);
        assert(programs.subrange(i - 1, programs.len() as int).drop_first() =~= programs.subrange(
            i,
            programs.len() as int,
        ));
    } else {
        assert(programs.subrange(0, programs.len() as int) =~= programs);
    }
}

/// Search the list and, recursively, every dependency subtree for a program
/// with this exact name; the first match in pre-order wins.  Returns nothing
/// when no node carries the name.
pub fn search_from_name<'a>(name: &String, programs: &'a Vec<Program>) -> (r: Option<&'a Program>)
    ensures
        match r {
            Some(p) => spec_search(name@, programs@) == Some(*p),
            None => spec_search(name@, programs@) is None,
        },
    decreases *programs,
{
    let mut i: usize = 0;
    while i < programs.len()
        invariant
            i <= programs@.len(),
            forall|k: int|
                0 <= k < i ==> (#[trigger] programs@[k]).name@ != name@ && spec_search(
                    name@,
                    programs@[k].dependencies@,
                ) is None,
        decreases programs@.len() - i,
    {
        proof {
            lemma_search_skip(name@, programs@, i as int);
            assert(programs@.subrange(i as int, programs@.len() as int)[0] == programs@[i as int]);
        }
        if string_eq(&programs[i].name, name) {
            return Some(&programs[i]);
        }
        let sub = search_from_name(name, programs[i].get_dependencies());
        if let Some(found) = sub {
            proof {
                assert(programs@.subrange(i as int, programs@.len() as int).drop_first()
                    =~= programs@.subrange(i as int + 1, programs@.len() as int));
            }
            return Some(found);
        }
        i += 1;
    }
    proof {
        lemma_search_skip(name@, programs@, programs@.len() as int);
    }
    None
}

} // verus!
