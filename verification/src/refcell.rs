//! The checked cell: a value guarded by a tri-state borrow tracker
//! (`Unshared`, `Shared(n)`, `Exclusive`). Acquiring access yields a guard
//! token (`Ref` for shared reads, `RefMut` for the one exclusive writer);
//! releasing the guard is the only way back to a less restrictive state.
//! A borrow that would break the shared-xor-exclusive rule is refused by
//! returning no guard, with the cell left as it was. Pairing each guard with
//! the cell it was acquired from is the caller's obligation, carried by the
//! `requires` clauses on dereference and release.

use vstd::prelude::*;

verus! {

/// The borrow tracker: no guard outstanding, `n >= 1` read guards
/// outstanding, or exactly one write guard outstanding.
#[derive(Clone, Copy, Debug, PartialEq, Eq, Structural)]
pub enum RefState {
    Unshared,
    Exclusive,
    Shared(usize),
}

/// One attempted or completed operation on a checked cell: a bid for a read
/// guard, a bid for a write guard (either may be refused), or the release of
/// a guard that is outstanding.
pub enum CcEvent {
    TryRead,
    TryWrite,
    ReleaseRead,
    ReleaseWrite,
}

/// The abstract state of one checked cell: how many read guards and how many
/// write guards are outstanding.
pub struct CcAbs {
    pub readers: nat,
    pub writers: nat,
}

/// The state of a freshly constructed cell: no guard outstanding.
pub open spec fn cc_init() -> CcAbs {
    CcAbs { readers: 0, writers: 0 }
}

/// A bid for a guard may always be made (it can be refused); a release acts
/// through a guard, so one of that kind must be outstanding.
pub open spec fn cc_enabled(s: CcAbs, e: CcEvent) -> bool {
    match e {
        CcEvent::TryRead => true,
        CcEvent::TryWrite => true,
        CcEvent::ReleaseRead => s.readers >= 1,
        CcEvent::ReleaseWrite => s.writers >= 1,
    }
}

/// The transition function of the borrow discipline: a read bid succeeds
/// unless a writer is out, a write bid succeeds only when nothing is out,
/// and a refused bid changes nothing.
pub open spec fn cc_step(s: CcAbs, e: CcEvent) -> CcAbs {
    match e {
        CcEvent::TryRead => if s.writers == 0 {
            CcAbs { readers: s.readers + 1, writers: s.writers }
        } else {
            s
        },
        CcEvent::TryWrite => if s.readers == 0 && s.writers == 0 {
            CcAbs { readers: s.readers, writers: 1 }
        } else {
            s
        },
        CcEvent::ReleaseRead => if s.readers >= 1 {
            CcAbs { readers: (s.readers - 1) as nat, writers: s.writers }
        } else {
            s
        },
        CcEvent::ReleaseWrite => if s.writers >= 1 {
            CcAbs { readers: s.readers, writers: (s.writers - 1) as nat }
        } else {
            s
        },
    }
}

/// The state after running `events` from `s`.
pub open spec fn cc_run(s: CcAbs, events: Seq<CcEvent>) -> CcAbs
    decreases events.len(),
{
    if events.len() == 0 {
        s
    } else {
        cc_run(cc_step(s, events.first()), events.skip(1))
    }
}

/// Whether every event of `events` is enabled in the state it is taken from.
pub open spec fn cc_valid_from(s: CcAbs, events: Seq<CcEvent>) -> bool
    decreases events.len(),
{
    events.len() == 0 || (cc_enabled(s, events.first()) && cc_valid_from(
        cc_step(s, events.first()),
        events.skip(1),
    ))
}

/// The shared-xor-exclusive invariant: never more than one write guard, and
/// never a write guard beside any read guard.
pub open spec fn cc_inv(s: CcAbs) -> bool {
    s.writers <= 1 && (s.writers == 1 ==> s.readers == 0)
}

/// The sequence of `n` copies of one event.
pub open spec fn repeat_event(e: CcEvent, n: nat) -> Seq<CcEvent> {
    Seq::new(n, |i: int| e)
}

proof fn lemma_cc_trace(s: CcAbs, events: Seq<CcEvent>)
    requires
        cc_inv(s),
        cc_valid_from(s, events),
    ensures
        cc_inv(cc_run(s, events)),
    decreases events.len(),
{
    if events.len() > 0 {
        lemma_cc_trace(cc_step(s, events.first()), events.skip(1));
    }
}

proof fn lemma_cc_run_add(s: CcAbs, a: Seq<CcEvent>, b: Seq<CcEvent>)
    ensures
        cc_run(s, a + b) == cc_run(cc_run(s, a), b),
        cc_valid_from(s, a + b) <==> (cc_valid_from(s, a) && cc_valid_from(cc_run(s, a), b)),
    decreases a.len(),
{
    if a.len() == 0 {
        assert(a + b =~= b);
    } else {
        assert((a + b).first() == a.first());
        assert((a + b).skip(1) =~= a.skip(1) + b);
        lemma_cc_run_add(cc_step(s, a.first()), a.skip(1), b);
    }
}

proof fn lemma_try_reads(s: CcAbs, n: nat)
    requires
        s.writers == 0,
    ensures
        cc_valid_from(s, repeat_event(CcEvent::TryRead, n)),
        cc_run(s, repeat_event(CcEvent::TryRead, n)) == (CcAbs {
            readers: s.readers + n,
            writers: 0,
        }),
    decreases n,
{
    if n > 0 {
        assert(repeat_event(CcEvent::TryRead, n).skip(1) =~= repeat_event(
            CcEvent::TryRead,
            (n - 1) as nat,
        ));
        lemma_try_reads(cc_step(s, CcEvent::TryRead), (n - 1) as nat);
    }
}

proof fn lemma_release_reads(s: CcAbs, n: nat)
    requires
        s.readers >= n,
    ensures
        cc_valid_from(s, repeat_event(CcEvent::ReleaseRead, n)),
        cc_run(s, repeat_event(CcEvent::ReleaseRead, n)) == (CcAbs {
            readers: (s.readers - n) as nat,
            writers: s.writers,
        }),
    decreases n,
{
    if n > 0 {
        assert(repeat_event(CcEvent::ReleaseRead, n).skip(1) =~= repeat_event(
            CcEvent::ReleaseRead,
            (n - 1) as nat,
        ));
        lemma_release_reads(cc_step(s, CcEvent::ReleaseRead), (n - 1) as nat);
    }
}

/// The exclusion law of the checked cell: along any realizable interleaving
/// of guard bids and guard releases, at most one write guard is outstanding
/// at any instant, and while a write guard is outstanding no read guard is.
pub proof fn lemma_guard_exclusion(events: Seq<CcEvent>)
    requires
        cc_valid_from(cc_init(), events),
    ensures
        cc_run(cc_init(), events).writers <= 1,
        cc_run(cc_init(), events).writers == 1 ==> cc_run(cc_init(), events).readers == 0,
{
    lemma_cc_trace(cc_init(), events);
}

/// The exclusion law at every instant: at any point of a realizable
/// interleaving, the guards outstanding so far obey the same bound — at
/// most one write guard, and none beside a read guard.
pub proof fn lemma_guard_exclusion_at(events: Seq<CcEvent>, i: int)
    requires
        cc_valid_from(cc_init(), events),
        0 <= i <= events.len(),
    ensures
        cc_valid_from(cc_init(), events.take(i)),
        cc_run(cc_init(), events.take(i)).writers <= 1,
        cc_run(cc_init(), events.take(i)).writers == 1 ==> cc_run(
            cc_init(),
            events.take(i),
        ).readers == 0,
{
    assert(events.take(i) + events.skip(i) =~= events);
    lemma_cc_run_add(cc_init(), events.take(i), events.skip(i));
    lemma_cc_trace(cc_init(), events.take(i));
}

/// Any number of read guards may coexist: from the initial state, `n` read
/// bids in a row are realizable, all succeed, and leave `n` readers and no
/// writer outstanding.
pub proof fn lemma_readers_coexist(n: nat)
    ensures
        cc_valid_from(cc_init(), repeat_event(CcEvent::TryRead, n)),
        cc_run(cc_init(), repeat_event(CcEvent::TryRead, n)) == (CcAbs {
            readers: n,
            writers: 0,
        }),
{
    lemma_try_reads(cc_init(), n);
}

/// The round-trip law: acquiring `n` read guards and then releasing all `n`
/// returns the cell to its initial, unshared state. Read guards are
/// indistinguishable, so every release order is this same event sequence.
pub proof fn lemma_read_guards_round_trip(n: nat)
    ensures
        cc_valid_from(
            cc_init(),
            repeat_event(CcEvent::TryRead, n) + repeat_event(CcEvent::ReleaseRead, n),
        ),
        cc_run(
            cc_init(),
            repeat_event(CcEvent::TryRead, n) + repeat_event(CcEvent::ReleaseRead, n),
        ) == cc_init(),
{
    lemma_try_reads(cc_init(), n);
    lemma_release_reads(cc_run(cc_init(), repeat_event(CcEvent::TryRead, n)), n);
    lemma_cc_run_add(
        cc_init(),
        repeat_event(CcEvent::TryRead, n),
        repeat_event(CcEvent::ReleaseRead, n),
    );
}

/// Well-formedness of a tracker value: a `Shared` count is at least 1.
pub open spec fn state_wf(s: RefState) -> bool {
    s matches RefState::Shared(n) ==> n >= 1
}

/// The abstract guard census a tracker value stands for.
pub open spec fn abs_of(s: RefState) -> CcAbs {
    match s {
        RefState::Unshared => CcAbs { readers: 0, writers: 0 },
        RefState::Exclusive => CcAbs { readers: 0, writers: 1 },
        RefState::Shared(n) => CcAbs { readers: n as nat, writers: 0 },
    }
}

/// A cell holding one value of type `T` behind the borrow tracker.
pub struct RefCell<T> {
    value: T,
    state: RefState,
}

/// A read guard: the transient right to read the cell it was acquired from,
/// beside any number of other read guards.
pub struct Ref {
    token: (),
}

/// A write guard: the transient, sole right to read and write the cell it
/// was acquired from.
pub struct RefMut {
    token: (),
}

impl<T> RefCell<T> {
    /// The value the cell currently holds.
    pub closed spec fn stored(self) -> T {
        self.value
    }

    /// The cell's borrow tracker.
    pub closed spec fn borrow_state(self) -> RefState {
        self.state
    }

    /// Well-formedness of the cell.
    pub open spec fn wf(self) -> bool {
        state_wf(self.borrow_state())
    }

    /// The guard census the cell's tracker stands for.
    pub open spec fn abs(self) -> CcAbs {
        abs_of(self.borrow_state())
    }

    /// Takes ownership of `value`; the new cell has no guard outstanding.
    pub fn new(value: T) -> (c: RefCell<T>)
        ensures
            c.wf(),
            c.stored() == value,
            c.borrow_state() == RefState::Unshared,
    {
        RefCell { value, state: RefState::Unshared }
    }

    /// Bids for a read guard: succeeds unless a write guard is outstanding,
    /// and a refused bid leaves the cell as it was. The count of outstanding
    /// read guards staying under the machine word limit is a machine bound,
    /// not a rule of the discipline.
    pub fn borrow(&mut self) -> (g: Option<Ref>)
        requires
            old(self).wf(),
            old(self).borrow_state() matches RefState::Shared(n) ==> n < usize::MAX,
        ensures
            final(self).wf(),
            final(self).stored() == old(self).stored(),
            (g is Some) <==> !(old(self).borrow_state() is Exclusive),
            final(self).abs() == cc_step(old(self).abs(), CcEvent::TryRead),
            match old(self).borrow_state() {
                RefState::Unshared => final(self).borrow_state() == RefState::Shared(1usize),
                RefState::Shared(n) => final(self).borrow_state() == RefState::Shared(
                    (n + 1) as usize,
                ),
                RefState::Exclusive => final(self).borrow_state() == old(self).borrow_state(),
            },
    {
        match self.state {
            RefState::Unshared => {
                self.state = RefState::Shared(1);
                Some(Ref { token: () })
            },
            RefState::Shared(n) => {
                self.state = RefState::Shared(n + 1);
                Some(Ref { token: () })
            },
            RefState::Exclusive => None,
        }
    }

    /// Bids for the write guard: succeeds only when no guard at all is
    /// outstanding, and a refused bid leaves the cell as it was.
    pub fn borrow_mut(&mut self) -> (g: Option<RefMut>)
        requires
            old(self).wf(),
        ensures
            final(self).wf(),
            final(self).stored() == old(self).stored(),
            (g is Some) <==> (old(self).borrow_state() is Unshared),
            final(self).abs() == cc_step(old(self).abs(), CcEvent::TryWrite),
            old(self).borrow_state() is Unshared ==> final(self).borrow_state()
                == RefState::Exclusive,
            !(old(self).borrow_state() is Unshared) ==> final(self).borrow_state() == old(
                self,
            ).borrow_state(),
    {
        match self.state {
            RefState::Unshared => {
                self.state = RefState::Exclusive;
                Some(RefMut { token: () })
            },
            RefState::Exclusive => None,
            RefState::Shared(_) => None,
        }
    }

    /// The tracker's current value, for callers that inspect the state.
    pub fn state(&self) -> (s: RefState)
        ensures
            s == self.borrow_state(),
    {
        self.state
    }
}

impl Ref {
    /// Reads the cell this guard was acquired from.
    pub fn deref<'a, T>(&self, cell: &'a RefCell<T>) -> (v: &'a T)
        requires
            cell.borrow_state() is Shared,
        ensures
            *v == cell.stored(),
    {
        &cell.value
    }

    /// Releases this read guard: `Shared(1)` returns to `Unshared`,
    /// `Shared(n)` steps down to `Shared(n - 1)`. Release from any other
    /// state would mean the tracker was driven outside its documented
    /// transitions; it is ruled out here, and the body treats it as
    /// unreachable.
    pub fn release<T>(self, cell: &mut RefCell<T>)
        requires
            old(cell).wf(),
            old(cell).borrow_state() is Shared,
        ensures
            final(cell).wf(),
            final(cell).stored() == old(cell).stored(),
            final(cell).abs() == cc_step(old(cell).abs(), CcEvent::ReleaseRead),
            old(cell).borrow_state() matches RefState::Shared(n) ==> final(cell).borrow_state()
                == (if n == 1 {
                RefState::Unshared
            } else {
                RefState::Shared((n - 1) as usize)
            }),
    {
        match cell.state {
            RefState::Shared(n) => {
                if n == 1 {
                    cell.state = RefState::Unshared;
                } else {
                    cell.state = RefState::Shared(n - 1);
                }
            },
            RefState::Unshared => unreached(),
            RefState::Exclusive => unreached(),
        }
    }
}

impl RefMut {
    /// Reads the cell this guard was acquired from.
    pub fn deref<'a, T>(&self, cell: &'a RefCell<T>) -> (v: &'a T)
        requires
            cell.borrow_state() is Exclusive,
        ensures
            *v == cell.stored(),
    {
        &cell.value
    }

    /// Opens the cell this guard was acquired from for writing; the tracker
    /// stays `Exclusive` while the reference lives.
    pub fn deref_mut<'a, T>(&self, cell: &'a mut RefCell<T>) -> (v: &'a mut T)
        requires
            old(cell).borrow_state() is Exclusive,
        ensures
            *v == old(cell).stored(),
            final(cell).stored() == *final(v),
            final(cell).borrow_state() == old(cell).borrow_state(),
    {
        &mut cell.value
    }

    /// Releases the write guard: `Exclusive` returns to `Unshared`. Release
    /// from any other state would mean the tracker was driven outside its
    /// documented transitions; it is ruled out here, and the body treats it
    /// as unreachable.
    pub fn release<T>(self, cell: &mut RefCell<T>)
        requires
            old(cell).wf(),
            old(cell).borrow_state() is Exclusive,
        ensures
            final(cell).wf(),
            final(cell).stored() == old(cell).stored(),
            final(cell).abs() == cc_step(old(cell).abs(), CcEvent::ReleaseWrite),
            final(cell).borrow_state() == RefState::Unshared,
    {
        match cell.state {
            RefState::Exclusive => {
                cell.state = RefState::Unshared;
            },
            RefState::Unshared => unreached(),
            RefState::Shared(_) => unreached(),
        }
    }
}

} // verus!
