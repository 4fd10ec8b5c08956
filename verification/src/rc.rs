//! The shared box: one heap block holding a payload and a plain (non-atomic)
//! count of live handles. Duplicating a handle increments the count;
//! destroying a handle decrements it, and the destroy that finds the count at
//! exactly 1 is the one that frees the payload. With verified ownership the
//! block is an explicit value (`RcInner`) threaded through the operations,
//! and a handle (`Rc`) is a token giving the right to use it; the freed block
//! is modelled by an empty payload. Pairing each token with the block it was
//! created for is the caller's obligation, carried by the `requires` clauses
//! on every operation.

use vstd::prelude::*;

verus! {

/// One step of the handle-count discipline: a live handle is duplicated, or
/// a live handle is destroyed.
pub enum RcEvent {
    Duplicate,
    Destroy,
}

/// The abstract state of one shared box: how many handles are live, and
/// whether the payload has been freed.
pub struct RcAbs {
    pub handles: nat,
    pub freed: bool,
}

/// The state of a freshly constructed box: one handle, nothing freed.
pub open spec fn rc_init() -> RcAbs {
    RcAbs { handles: 1, freed: false }
}

/// Both duplication and destruction act through a live handle, so either
/// event needs at least one.
pub open spec fn rc_enabled(s: RcAbs, e: RcEvent) -> bool {
    s.handles >= 1
}

/// Whether taking event `e` in state `s` is the step that frees the payload:
/// exactly the destruction of the last live handle.
pub open spec fn rc_frees(s: RcAbs, e: RcEvent) -> bool {
    e is Destroy && s.handles == 1
}

/// The transition function of the handle-count discipline.
pub open spec fn rc_step(s: RcAbs, e: RcEvent) -> RcAbs {
    match e {
        RcEvent::Duplicate => RcAbs { handles: s.handles + 1, freed: s.freed },
        RcEvent::Destroy => if s.handles >= 1 {
            RcAbs { handles: (s.handles - 1) as nat, freed: s.freed || s.handles == 1 }
        } else {
            s
        },
    }
}

/// The state after running `events` from `s`.
pub open spec fn rc_run(s: RcAbs, events: Seq<RcEvent>) -> RcAbs
    decreases events.len(),
{
    if events.len() == 0 {
        s
    } else {
        rc_run(rc_step(s, events.first()), events.skip(1))
    }
}

/// Whether every event of `events` is enabled in the state it is taken from.
pub open spec fn rc_valid_from(s: RcAbs, events: Seq<RcEvent>) -> bool
    decreases events.len(),
{
    events.len() == 0 || (rc_enabled(s, events.first()) && rc_valid_from(
        rc_step(s, events.first()),
        events.skip(1),
    ))
}

/// How many of the steps of `events`, run from `s`, free the payload.
pub open spec fn rc_free_count(s: RcAbs, events: Seq<RcEvent>) -> nat
    decreases events.len(),
{
    if events.len() == 0 {
        0
    } else {
        (if rc_frees(s, events.first()) {
            1nat
        } else {
            0nat
        }) + rc_free_count(rc_step(s, events.first()), events.skip(1))
    }
}

/// The invariant of the discipline: the payload is freed exactly when no
/// handle is left.
pub open spec fn rc_inv(s: RcAbs) -> bool {
    s.freed <==> s.handles == 0
}

proof fn lemma_rc_run_add(s: RcAbs, a: Seq<RcEvent>, b: Seq<RcEvent>)
    ensures
        rc_run(s, a + b) == rc_run(rc_run(s, a), b),
        rc_valid_from(s, a + b) <==> (rc_valid_from(s, a) && rc_valid_from(rc_run(s, a), b)),
        rc_free_count(s, a + b) == rc_free_count(s, a) + rc_free_count(rc_run(s, a), b),
    decreases a.len(),
{
    if a.len() == 0 {
        assert(a + b =~= b);
    } else {
        assert((a + b).first() == a.first());
        assert((a + b).skip(1) =~= a.skip(1) + b);
        lemma_rc_run_add(rc_step(s, a.first()), a.skip(1), b);
    }
}

proof fn lemma_rc_trace(s: RcAbs, events: Seq<RcEvent>)
    requires
        rc_inv(s),
        rc_valid_from(s, events),
    ensures
        rc_inv(rc_run(s, events)),
        s.freed ==> events.len() == 0,
        rc_free_count(s, events) == if !s.freed && rc_run(s, events).freed {
            1nat
        } else {
            0nat
        },
    decreases events.len(),
{
    if events.len() > 0 {
        lemma_rc_trace(rc_step(s, events.first()), events.skip(1));
    }
}

/// The law of the shared box: over any realizable sequence of duplications
/// and destructions (each acting on a live handle), the payload is freed at
/// most once; it has been freed exactly once precisely when the last live
/// handle has been destroyed, and the freeing step is by definition
/// (`rc_frees`) the destruction that takes the count from 1 to 0 — never an
/// earlier destroy, never a later one, never twice.
pub proof fn lemma_payload_freed_exactly_once(events: Seq<RcEvent>)
    requires
        rc_valid_from(rc_init(), events),
    ensures
        rc_free_count(rc_init(), events) <= 1,
        rc_free_count(rc_init(), events) == 1 <==> rc_run(rc_init(), events).handles == 0,
        rc_run(rc_init(), events).freed <==> rc_run(rc_init(), events).handles == 0,
{
    lemma_rc_trace(rc_init(), events);
}

/// The timing of the free, instant by instant: at every point of a
/// realizable sequence of duplications and destructions, the steps taken so
/// far have freed the payload at most once, and exactly once precisely when
/// no handle is live at that point — so the payload is never freed while a
/// handle is still live, and never still held once the last handle is gone.
pub proof fn lemma_payload_free_timing(events: Seq<RcEvent>, i: int)
    requires
        rc_valid_from(rc_init(), events),
        0 <= i <= events.len(),
    ensures
        rc_valid_from(rc_init(), events.take(i)),
        rc_free_count(rc_init(), events.take(i)) <= 1,
        rc_free_count(rc_init(), events.take(i)) == 1 <==> rc_run(
            rc_init(),
            events.take(i),
        ).handles == 0,
{
    assert(events.take(i) + events.skip(i) =~= events);
    lemma_rc_run_add(rc_init(), events.take(i), events.skip(i));
    lemma_rc_trace(rc_init(), events.take(i));
}

/// The shared heap block: the payload (empty once freed) and the count of
/// live handles.
pub struct RcInner<T> {
    value: Option<T>,
    count: usize,
}

/// A handle to a shared box. The set of live handles collectively owns the
/// block; a handle is the right to read the payload, to be duplicated, and
/// to be destroyed.
pub struct Rc<T> {
    token: core::marker::PhantomData<T>,
}

impl<T> RcInner<T> {
    /// The payload still held by the block, if it has not been freed.
    pub closed spec fn payload(self) -> Option<T> {
        self.value
    }

    /// The number of live handles the block believes in.
    pub closed spec fn handle_count(self) -> nat {
        self.count as nat
    }

    /// The block's abstract state under the handle-count discipline.
    pub open spec fn abs(self) -> RcAbs {
        RcAbs { handles: self.handle_count(), freed: self.payload() is None }
    }

    /// Well-formedness: the payload is present exactly while a handle is live.
    pub open spec fn wf(self) -> bool {
        self.payload() is Some <==> self.handle_count() >= 1
    }

    /// The current count of live handles.
    pub fn count(&self) -> (n: usize)
        ensures
            n == self.handle_count(),
    {
        self.count
    }

    /// Whether the block is still live, i.e. the payload has not been freed.
    pub fn is_live(&self) -> (r: bool)
        ensures
            r == (self.payload() is Some),
    {
        self.value.is_some()
    }
}

impl<T> Rc<T> {
    /// Makes one block holding `value` with an initial count of 1, and the
    /// first handle to it.
    pub fn new(value: T) -> (r: (RcInner<T>, Rc<T>))
        ensures
            r.0.wf(),
            r.0.abs() == rc_init(),
            r.0.payload() == Some(value),
    {
        (RcInner { value: Some(value), count: 1 }, Rc { token: core::marker::PhantomData })
    }

    /// Duplicates this handle: increments the block's count and returns a new
    /// handle to the same block. Never allocates and never frees. The count
    /// staying under the machine word limit is the caller's concern; overflow
    /// of the count is out of scope.
    pub fn duplicate(&self, inner: &mut RcInner<T>) -> (h: Rc<T>)
        requires
            old(inner).wf(),
            old(inner).handle_count() >= 1,
            old(inner).handle_count() < usize::MAX,
        ensures
            final(inner).wf(),
            final(inner).abs() == rc_step(old(inner).abs(), RcEvent::Duplicate),
            final(inner).payload() == old(inner).payload(),
            final(inner).handle_count() == old(inner).handle_count() + 1,
    {
        inner.count = inner.count + 1;
        Rc { token: core::marker::PhantomData }
    }

    /// Destroys this handle. The count found at destroy time decides: exactly
    /// 1 means this was the last live handle, and the payload is freed — the
    /// only path that frees; otherwise the count is decremented and the block
    /// stays live.
    pub fn destroy(self, inner: &mut RcInner<T>)
        requires
            old(inner).wf(),
            old(inner).handle_count() >= 1,
        ensures
            final(inner).wf(),
            final(inner).abs() == rc_step(old(inner).abs(), RcEvent::Destroy),
            final(inner).handle_count() == old(inner).handle_count() - 1,
            old(inner).handle_count() > 1 ==> final(inner).payload() == old(inner).payload(),
            old(inner).handle_count() == 1 ==> final(inner).payload() is None,
    {
        if inner.count == 1 {
            inner.value = None;
            inner.count = 0;
        } else {
            inner.count = inner.count - 1;
        }
    }

    /// Reads the payload through this handle; valid while the block is live.
    pub fn deref<'a>(&self, inner: &'a RcInner<T>) -> (v: &'a T)
        requires
            inner.wf(),
            inner.handle_count() >= 1,
        ensures
            inner.payload() == Some(*v),
    {
        match &inner.value {
            Some(v) => v,
            None => unreached(),
        }
    }
}

} // verus!
