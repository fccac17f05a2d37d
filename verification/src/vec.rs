//! An instrumented growable sequence container.
//!
//! [`Vec`] wraps a native vector and owns a registry identifier; every
//! capacity-affecting mutation measures the native capacity before and
//! after the operation, derives zero or one [`ReportEvent`], and appends
//! it to the owning record in a [`Report`].

use std::vec::Vec as StdVec;
use vstd::prelude::*;

use crate::{
    apply_append, bump, default_record_view, record_or_default, with_event, with_max_capacity,
    with_name, Report, ReportEvent, Reportable, Uid,
};

verus! {

/// Relies on std's `Vec::capacity`: the total number of elements the
/// vector can hold without reallocating, which is never below its length.
#[verifier::external_body]
fn vec_capacity<T>(v: &StdVec<T>) -> (c: usize)
    ensures
        c >= v@.len(),
{
    v.capacity()
}

/// Relies on std's `Vec::shrink_to`: it only lowers the spare capacity,
/// keeping every element in place.
#[verifier::external_body]
fn vec_shrink_to<T>(v: &mut StdVec<T>, min_capacity: usize)
    ensures
        final(v)@ == old(v)@,
{
    v.shrink_to(min_capacity)
}

/// The event a growing mutation records when the measured capacity moved
/// from `prev_cap` to `new_cap`: exactly one increase carrying the two
/// measured values when the capacity grew, and none otherwise.
pub fn growth_event(prev_cap: usize, new_cap: usize) -> (r: Option<ReportEvent>)
    ensures
        prev_cap < new_cap ==> r == Some(ReportEvent::CapacityIncrease(prev_cap, new_cap)),
        prev_cap >= new_cap ==> r is None,
{
    if prev_cap < new_cap {
        Some(ReportEvent::CapacityIncrease(prev_cap, new_cap))
    } else {
        None
    }
}

/// The event a shrinking mutation records when the measured capacity moved
/// from `prev_cap` to `new_cap`: exactly one decrease carrying the two
/// measured values when the capacity fell, and none otherwise.
pub fn shrink_event(prev_cap: usize, new_cap: usize) -> (r: Option<ReportEvent>)
    ensures
        new_cap < prev_cap ==> r == Some(ReportEvent::CapacityDecrease(prev_cap, new_cap)),
        new_cap >= prev_cap ==> r is None,
{
    if new_cap < prev_cap {
        Some(ReportEvent::CapacityDecrease(prev_cap, new_cap))
    } else {
        None
    }
}

/// An instrumented growable sequence container.
///
/// A drop-in wrapper over a native vector that owns one registry
/// identifier, allocated at construction time; its record in the registry
/// outlives the container.
pub struct Vec<T> {
    items: StdVec<T>,
    id: Uid,
}

impl<T> View for Vec<T> {
    type V = Seq<T>;

    closed spec fn view(&self) -> Seq<T> {
        self.items@
    }
}

impl<T> Reportable for Vec<T> {
    closed spec fn id_spec(&self) -> Uid {
        self.id
    }

    fn id(&self) -> (r: Uid) {
        self.id
    }
}

impl<T> Vec<T> {
    /// Creates an empty instrumented vector registered under a fresh
    /// identifier, whose record starts at the default.
    pub fn new(reg: &mut Report) -> (v: Vec<T>)
        requires
            old(reg).wf(),
            old(reg).next_id() < u64::MAX,
        ensures
            final(reg).wf(),
            v@ == Seq::<T>::empty(),
            v.id_spec()@ == old(reg).next_id(),
            !old(reg)@.contains_key(v.id_spec()),
            final(reg)@ == old(reg)@.insert(v.id_spec(), default_record_view(v.id_spec())),
            final(reg).next_id() == old(reg).next_id() + 1,
    {
        let id = reg.create();
        Vec { items: StdVec::new(), id }
    }

    /// Creates an empty instrumented vector with at least `cap` elements
    /// of preallocated native capacity.  The requested amount is recorded
    /// as the instance's capacity ceiling: the record starts at the
    /// default with the ceiling set and one `MaxCapacitySet` event.
    pub fn with_capacity(reg: &mut Report, cap: usize) -> (v: Vec<T>)
        requires
            old(reg).wf(),
            old(reg).next_id() < u64::MAX,
        ensures
            final(reg).wf(),
            v@ == Seq::<T>::empty(),
            v.id_spec()@ == old(reg).next_id(),
            !old(reg)@.contains_key(v.id_spec()),
            final(reg)@ == old(reg)@.insert(
                v.id_spec(),
                with_event(
                    with_max_capacity(default_record_view(v.id_spec()), cap),
                    ReportEvent::MaxCapacitySet(cap),
                ),
            ),
            final(reg).next_id() == old(reg).next_id() + 1,
    {
        let ghost reg0 = *reg;
        let id = reg.create();
        let v = Vec { items: StdVec::with_capacity(cap), id };
        v.set_max_capacity(reg, cap);
        proof {
            assert(final(reg)@ =~= reg0@.insert(
                v.id_spec(),
                with_event(
                    with_max_capacity(default_record_view(v.id_spec()), cap),
                    ReportEvent::MaxCapacitySet(cap),
                ),
            ));
        }
        v
    }

    /// The number of elements in the container.
    pub fn len(&self) -> (n: usize)
        ensures
            n == self@.len(),
    {
        self.items.len()
    }

    /// The measured native capacity: how many elements the container can
    /// hold without reallocating.  The value is whatever the allocator
    /// currently reserves, never below the length.
    pub fn capacity(&self) -> (c: usize)
        ensures
            c >= self@.len(),
    {
        vec_capacity(&self.items)
    }

    /// Whether the length has reached the current physical capacity, so
    /// that the next push must grow the storage.  Advisory: the answer
    /// reflects the allocator's current reservation.
    pub fn at_capacity(&self) -> bool {
        self.items.len() == vec_capacity(&self.items)
    }

    /// Appends an element, recording a capacity-increase event exactly
    /// when the measured native capacity grew.
    ///
    /// Returns the recorded event, if any.  The values it carries are the
    /// capacities measured before and after the native push — the true
    /// before/after reservation, not any requested amount — and a push
    /// that found headroom records nothing.
    pub fn push(&mut self, reg: &mut Report, item: T) -> (ev: Option<ReportEvent>)
        requires
            old(reg).wf(),
        ensures
            final(reg).wf(),
            final(self).id_spec() == old(self).id_spec(),
            final(self)@ == old(self)@.push(item),
            match ev {
                None => final(reg)@ == old(reg)@ && final(reg).next_id() == old(reg).next_id(),
                Some(e) => (e matches ReportEvent::CapacityIncrease(p, n) && p < n && old(self)@.len()
                    <= p && final(self)@.len() <= n) && final(reg)@ == apply_append(
                    old(reg)@,
                    old(self).id_spec(),
                    e,
                ) && final(reg).next_id() == bump(old(reg).next_id(), old(self).id_spec()@),
            },
    {
        let prev_cap = vec_capacity(&self.items);
        self.items.push(item);
        let new_cap = vec_capacity(&self.items);
        let ev = growth_event(prev_cap, new_cap);
        match ev {
            Some(e) => {
                reg.append_event(self.id, e);
            },
            None => {},
        }
        ev
    }

    /// Removes and returns the last element.  The native container never
    /// shrinks its storage on its own, so no event is recorded.
    pub fn pop(&mut self) -> (r: Option<T>)
        ensures
            final(self).id_spec() == old(self).id_spec(),
            old(self)@.len() > 0 ==> r == Some(old(self)@[old(self)@.len() - 1]) && final(self)@
                == old(self)@.subrange(0, old(self)@.len() - 1),
            old(self)@.len() == 0 ==> r is None && final(self)@ == old(self)@,
    {
        self.items.pop()
    }

    /// Lowers the native capacity to at most the given bound (never below
    /// the length), recording a capacity-decrease event exactly when the
    /// measured capacity fell.
    ///
    /// This is the read-then-write sequence that makes owned snapshots
    /// mandatory: the capacity is measured first, and the event is written
    /// to the same record immediately afterwards.  No read here holds a
    /// live reference into the registry, so the write cannot block.
    pub fn shrink_to(&mut self, reg: &mut Report, min_capacity: usize) -> (ev: Option<ReportEvent>)
        requires
            old(reg).wf(),
        ensures
            final(reg).wf(),
            final(self).id_spec() == old(self).id_spec(),
            final(self)@ == old(self)@,
            match ev {
                None => final(reg)@ == old(reg)@ && final(reg).next_id() == old(reg).next_id(),
                Some(e) => (e matches ReportEvent::CapacityDecrease(p, n) && n < p
                    && final(self)@.len() <= n) && final(reg)@ == apply_append(
                    old(reg)@,
                    old(self).id_spec(),
                    e,
                )
                    && final(reg).next_id() == bump(old(reg).next_id(), old(self).id_spec()@),
            },
    {
        let prev_cap = vec_capacity(&self.items);
        vec_shrink_to(&mut self.items, min_capacity);
        let new_cap = vec_capacity(&self.items);
        let ev = shrink_event(prev_cap, new_cap);
        match ev {
            Some(e) => {
                reg.append_event(self.id, e);
            },
            None => {},
        }
        ev
    }

    /// Declares a capacity ceiling for this instance: the ceiling is set
    /// on the record and a `MaxCapacitySet` event is appended.  The
    /// ceiling is not enforced here; enforcement is a caller concern.
    pub fn set_max_capacity(&self, reg: &mut Report, limit: usize)
        requires
            old(reg).wf(),
        ensures
            final(reg).wf(),
            final(reg)@ == old(reg)@.insert(
                self.id_spec(),
                with_event(
                    with_max_capacity(record_or_default(old(reg)@, self.id_spec()), limit),
                    ReportEvent::MaxCapacitySet(limit),
                ),
            ),
            final(reg).next_id() == bump(old(reg).next_id(), self.id_spec()@),
    {
        let ghost reg0 = *reg;
        reg.set_max_capacity(self.id, limit);
        reg.append_event(self.id, ReportEvent::MaxCapacitySet(limit));
        proof {
            assert(final(reg)@ =~= reg0@.insert(
                self.id_spec(),
                with_event(
                    with_max_capacity(record_or_default(reg0@, self.id_spec()), limit),
                    ReportEvent::MaxCapacitySet(limit),
                ),
            ));
        }
    }

    /// Builder form of [`Vec::set_max_capacity`]: declares the ceiling and
    /// returns the container by value for chaining.
    pub fn with_max_capacity(self, reg: &mut Report, limit: usize) -> (v: Vec<T>)
        requires
            old(reg).wf(),
        ensures
            v == self,
            final(reg).wf(),
            final(reg)@ == old(reg)@.insert(
                self.id_spec(),
                with_event(
                    with_max_capacity(record_or_default(old(reg)@, self.id_spec()), limit),
                    ReportEvent::MaxCapacitySet(limit),
                ),
            ),
            final(reg).next_id() == bump(old(reg).next_id(), self.id_spec()@),
    {
        self.set_max_capacity(reg, limit);
        self
    }

    /// Sets the display name on this container's record.
    pub fn set_name(&self, reg: &mut Report, name: &str)
        requires
            old(reg).wf(),
        ensures
            final(reg).wf(),
            final(reg)@ == old(reg)@.insert(
                self.id_spec(),
                with_name(record_or_default(old(reg)@, self.id_spec()), name@),
            ),
            final(reg).next_id() == bump(old(reg).next_id(), self.id_spec()@),
    {
        reg.set_name(self.id, name);
    }

    /// Builder form of [`Vec::set_name`]: names the record and returns the
    /// container by value for chaining.
    pub fn with_name(self, reg: &mut Report, name: &str) -> (v: Vec<T>)
        requires
            old(reg).wf(),
        ensures
            v == self,
            final(reg).wf(),
            final(reg)@ == old(reg)@.insert(
                self.id_spec(),
                with_name(record_or_default(old(reg)@, self.id_spec()), name@),
            ),
            final(reg).next_id() == bump(old(reg).next_id(), self.id_spec()@),
    {
        self.set_name(reg, name);
        self
    }
}

} // verus!
