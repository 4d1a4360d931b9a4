//! A build sequence: a cursor over the list of build targets that moves
//! through the phases Ready, Building and Passed or Failed.

use std::marker::PhantomData;
use vstd::prelude::*;

verus! {

/// Marker of a cursor that may start a build.
#[derive(Clone, Copy)]
pub struct Ready;

/// Marker of a cursor whose build is running.
#[derive(Clone, Copy)]
pub struct Building;

/// Marker of a cursor whose last build passed.
#[derive(Clone, Copy)]
pub struct Passed;

/// Marker of a cursor whose last build failed.
#[derive(Clone, Copy)]
pub struct Failed;

/// The position of the next target to build, out of `length` targets.
pub struct Cursor<S> {
    index: usize,
    length: usize,
    state: PhantomData<S>,
}

impl<S> Clone for Cursor<S> {
    fn clone(&self) -> (r: Self)
        ensures
            r == *self,
    {
        *self
    }
}

impl<S> Copy for Cursor<S> {
}

/// The phase a sequence is in, as seen by specifications.
pub enum Phase {
    Ready,
    Building,
    Passed,
    Failed,
}

/// What a cursor holds, as seen by specifications.
pub struct CursorView {
    pub index: nat,
    pub length: nat,
}

/// What a sequence holds, as seen by specifications.
pub struct SequenceView {
    pub phase: Phase,
    pub index: nat,
    pub length: nat,
}

impl<S> View for Cursor<S> {
    type V = CursorView;

    closed spec fn view(&self) -> CursorView {
        CursorView { index: self.index as nat, length: self.length as nat }
    }
}

/// The index after `index` in a ring of `length` targets; 0 in an empty ring.
pub open spec fn next_index(index: nat, length: nat) -> nat {
    if length == 0 {
        0
    } else {
        (index + 1) % length
    }
}

impl<S> Cursor<S> {
    /// The index of the target this cursor points at.
    pub fn index(&self) -> (r: usize)
        ensures
            r as nat == self@.index,
    {
        self.index
    }

    fn holding<T>(self) -> (r: Cursor<T>)
        ensures
            r@ == self@,
    {
        Cursor { index: self.index, length: self.length, state: PhantomData }
    }

    fn advancing<T>(self) -> (r: Cursor<T>)
        ensures
            r@.index == next_index(self@.index, self@.length),
            r@.length == self@.length,
    {
        let index: usize = if self.length == 0 {
            0
        } else {
            let here: usize = self.index % self.length;
            if here + 1 == self.length {
                0
            } else {
                here + 1
            }
        };
        proof {
            if self.length > 0 {
                let n = self.length as int;
                let i = self.index as int;
                assert((i + 1) % n == ((i % n) + 1) % n) by (nonlinear_arith)
                    requires n > 0, i >= 0;
                assert(0 <= i % n < n) by (nonlinear_arith)
                    requires n > 0;
                let h = i % n;
                if h + 1 == n {
                    assert((h + 1) % n == 0) by (nonlinear_arith) requires h + 1 == n, n > 0;
                } else {
                    assert((h + 1) % n == h + 1) by (nonlinear_arith) requires 0 <= h + 1 < n;
                }
            }
        }
        Cursor { index, length: self.length, state: PhantomData }
    }
}

impl Cursor<Ready> {
    fn new(length: usize) -> (r: Self)
        ensures
            r@ == (CursorView { index: 0, length: length as nat }),
    {
        Cursor { index: 0, length, state: PhantomData }
    }

    fn aimed(self, index: usize) -> (r: Self)
        ensures
            r@ == (CursorView { index: index as nat, length: self@.length }),
    {
        Cursor { index, length: self.length, state: PhantomData }
    }

    fn started(self) -> (r: Cursor<Building>)
        ensures
            r@ == self@,
    {
        self.holding()
    }
}

impl Cursor<Building> {
    fn passed(self) -> (r: Cursor<Passed>)
        ensures
            r@.index == next_index(self@.index, self@.length),
            r@.length == self@.length,
    {
        self.advancing()
    }

    fn failed(self) -> (r: Cursor<Failed>)
        ensures
            r@ == self@,
    {
        self.holding()
    }
}

impl Cursor<Passed> {
    fn ready(self) -> (r: Cursor<Ready>)
        ensures
            r@ == self@,
    {
        self.holding()
    }
}

impl Cursor<Failed> {
    fn ready(self) -> (r: Cursor<Ready>)
        ensures
            r@ == self@,
    {
        self.holding()
    }
}

/// The build sequence, in one of its four phases.
#[derive(Clone, Copy)]
pub enum Sequence {
    Ready(Cursor<Ready>),
    Building(Cursor<Building>),
    Passed(Cursor<Passed>),
    Failed(Cursor<Failed>),
}

impl View for Sequence {
    type V = SequenceView;

    open spec fn view(&self) -> SequenceView {
        match self {
            Sequence::Ready(c) => SequenceView { phase: Phase::Ready, index: c@.index, length: c@.length },
            Sequence::Building(c) => SequenceView { phase: Phase::Building, index: c@.index, length: c@.length },
            Sequence::Passed(c) => SequenceView { phase: Phase::Passed, index: c@.index, length: c@.length },
            Sequence::Failed(c) => SequenceView { phase: Phase::Failed, index: c@.index, length: c@.length },
        }
    }
}

impl SequenceView {
    /// Whether a build is running.
    pub open spec fn is_building(self) -> bool {
        self.phase is Building
    }

    /// The sequence after `armed`, and the index it offers.
    pub open spec fn armed(self) -> (SequenceView, Option<nat>) {
        if self.is_building() {
            (self, None)
        } else {
            (SequenceView { phase: Phase::Ready, index: self.index, length: self.length }, Some(self.index))
        }
    }

    /// The sequence after `started(index)`.
    pub open spec fn started(self, index: nat) -> SequenceView {
        if self.is_building() {
            self
        } else {
            SequenceView { phase: Phase::Building, index, length: self.length }
        }
    }

    /// The sequence after `finished(ok)`.
    pub open spec fn finished(self, ok: bool) -> SequenceView {
        if !self.is_building() {
            self
        } else if ok {
            SequenceView {
                phase: Phase::Passed,
                index: next_index(self.index, self.length),
                length: self.length,
            }
        } else {
            SequenceView { phase: Phase::Failed, index: self.index, length: self.length }
        }
    }
}

impl Sequence {
    /// A sequence over `length` targets, ready at the first one.
    pub fn new(length: usize) -> (r: Self)
        ensures
            r@ == (SequenceView { phase: Phase::Ready, index: 0, length: length as nat }),
    {
        Sequence::Ready(Cursor::new(length))
    }

    fn settled(self) -> (r: Cursor<Ready>)
        ensures
            r@.index == self@.index,
            r@.length == self@.length,
    {
        match self {
            Sequence::Ready(cursor) => cursor,
            Sequence::Building(cursor) => cursor.holding(),
            Sequence::Passed(cursor) => cursor.ready(),
            Sequence::Failed(cursor) => cursor.ready(),
        }
    }

    /// Settles a finished sequence back to Ready and offers the index of the
    /// target to build next; a running sequence is left as it is and offers none.
    pub fn armed(self) -> (r: (Self, Option<usize>))
        ensures
            r.0@ == self@.armed().0,
            r.1 matches Some(i) ==> self@.armed().1 == Some(i as nat),
            r.1 is None <==> self@.armed().1 is None,
    {
        match self {
            Sequence::Building(cursor) => (Sequence::Building(cursor), None),
            settled => {
                let cursor = settled.settled();
                (Sequence::Ready(cursor), Some(cursor.index()))
            },
        }
    }

    /// Starts a build of target `index`, unless one is already running.
    pub fn started(self, index: usize) -> (r: Self)
        ensures
            r@ == self@.started(index as nat),
    {
        match self {
            Sequence::Building(cursor) => Sequence::Building(cursor),
            settled => Sequence::Building(settled.settled().aimed(index).started()),
        }
    }

    /// Records how the running build ended: a pass moves on to the next target,
    /// a failure stays on the same one. Outside a build nothing changes.
    pub fn finished(self, ok: bool) -> (r: Self)
        ensures
            r@ == self@.finished(ok),
    {
        match self {
            Sequence::Building(cursor) => {
                if ok {
                    Sequence::Passed(cursor.passed())
                } else {
                    Sequence::Failed(cursor.failed())
                }
            },
            settled => settled,
        }
    }
}

/// No transition changes the number of targets a sequence ranges over.
pub proof fn law_length_is_kept(s: SequenceView, index: nat, ok: bool)
    ensures
        s.armed().0.length == s.length,
        s.started(index).length == s.length,
        s.finished(ok).length == s.length,
{
}

/// While a build runs, starting another one changes nothing and the
/// sequence offers no target to build.
pub proof fn law_running_build_is_exclusive(s: SequenceView, index: nat)
    requires
        s.is_building(),
    ensures
        s.started(index) == s,
        s.armed().1 is None,
{
}

/// A build of target `index` that passes makes the sequence offer the next
/// target in the ring; one that fails makes it offer the same target again.
pub proof fn law_pass_advances_failure_retries(s: SequenceView, index: nat)
    requires
        !s.is_building(),
    ensures
        s.started(index).finished(true).armed().1 == Some(next_index(index, s.length)),
        s.started(index).finished(false).armed().1 == Some(index),
{
}

/// Whether the sequence stands on one of its targets, or at 0 when it has
/// none.
pub open spec fn in_range(s: SequenceView) -> bool {
    s.index < s.length || (s.length == 0 && s.index == 0)
}

/// A new sequence stands on one of its targets, and no transition takes it
/// off them, as long as every build started is of one of the targets: so
/// every state reached from `Sequence::new` keeps its index below the
/// number of targets. After a pass it stands on the next target in the
/// ring, after a failure on the same one.
pub proof fn law_index_stays_in_range(length: nat, s: SequenceView, index: nat, ok: bool)
    requires
        in_range(s),
        index < s.length,
    ensures
        in_range(SequenceView { phase: Phase::Ready, index: 0, length }),
        in_range(s.armed().0),
        in_range(s.started(index)),
        in_range(s.finished(ok)),
        s.is_building() && ok ==> s.finished(ok).index == (s.index + 1) % s.length,
        s.is_building() && !ok ==> s.finished(ok).index == s.index,
{
}

/// Moving on from a target inside the ring lands inside the ring.
pub proof fn law_next_index_in_range(index: nat, length: nat)
    requires
        index < length,
    ensures
        next_index(index, length) < length,
{
}

} // verus!
