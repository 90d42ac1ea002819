//! A shared-ownership handle with reference counting.
//!
//! The concurrent implementation keeps an atomic counter next to the payload
//! in one shared allocation; every live handle points at that allocation.
//! Here the allocation and its handle set are modelled as a single value:
//! `live()` is the number of handles currently sharing the payload, a
//! duplication raises it, a release lowers it, and the release that lowers it
//! to zero is the one that hands the payload back for destruction. The
//! lifecycle law — the payload is destroyed exactly once, and only by the
//! last release — is proved in [`lemma_destroyed_exactly_once`] over every
//! admissible sequence of duplications and releases.

use vstd::prelude::*;

verus! {

/// Duplication is refused once the handle count would climb past this bound:
/// a count beyond half the representable range signals a runaway duplication
/// storm, treated as unrecoverable corruption rather than a condition to
/// recover from.
pub const CLONE_LIMIT: usize = usize::MAX / 2;

/// A shared-ownership handle with reference counting.
///
/// One value of this type stands for the shared allocation together with all
/// of the handles that currently point at it.
pub struct Arc<T> {
    count: usize,
    payload: T,
}

impl<T> Arc<T> {
    /// The number of handles that currently share the payload.
    pub closed spec fn live(&self) -> nat {
        self.count as nat
    }

    /// The shared payload.
    pub closed spec fn value(&self) -> T {
        self.payload
    }

    /// Allocate shared storage holding `data`; the single returned handle is
    /// the whole handle set, so the count starts at one.
    pub fn new(data: T) -> (arc: Self)
        ensures
            arc.live() == 1,
            arc.value() == data,
    {
        Arc { count: 1, payload: data }
    }

    /// Shared read access to the payload, always available: the payload
    /// outlives every handle, so a handle in hand is proof that it is still
    /// valid.
    pub fn deref(&self) -> (r: &T)
        ensures
            *r == self.value(),
    {
        &self.payload
    }

    /// Duplicate one handle: the count rises by one and the payload is
    /// untouched. A duplication that would push the count past
    /// [`CLONE_LIMIT`] is an unrecoverable fault of the caller and is ruled
    /// out here rather than handled.
    pub fn clone(&mut self)
        requires
            old(self).live() + 1 <= CLONE_LIMIT,
        ensures
            final(self).live() == old(self).live() + 1,
            final(self).value() == old(self).value(),
    {
        self.count = self.count + 1;
    }

    /// Whether exactly one handle currently exists, read from the counter
    /// exactly as the uniqueness check before exclusive access does.
    pub fn is_unique(&self) -> (r: bool)
        ensures
            r <==> self.live() == 1,
    {
        self.count == 1
    }

    /// Exclusive access to the payload, granted only while exactly one
    /// handle exists; with no other handle live, no other reader can be in
    /// flight. A caller that is not sure it is unique checks with
    /// [`Arc::is_unique`] first — a negative answer is an expected outcome,
    /// not an error.
    pub fn get_mut(&mut self) -> (r: &mut T)
        requires
            old(self).live() == 1,
        ensures
            *r == old(self).value(),
            final(self).live() == 1,
            final(self).value() == *final(r),
    {
        &mut self.payload
    }

    /// Release one handle. While other handles remain, only the count drops;
    /// the release that observes the count falling to zero is the single
    /// point where the payload leaves the allocation, and it is returned to
    /// the caller so that its destruction runs exactly once.
    pub fn drop_handle(self) -> (r: Result<Arc<T>, T>)
        requires
            self.live() >= 1,
        ensures
            match r {
                Ok(rest) => {
                    &&& self.live() > 1
                    &&& rest.live() == self.live() - 1
                    &&& rest.value() == self.value()
                },
                Err(freed) => {
                    &&& self.live() == 1
                    &&& freed == self.value()
                },
            },
    {
        if self.count == 1 {
            Err(self.payload)
        } else {
            Ok(Arc { count: self.count - 1, payload: self.payload })
        }
    }
}

/// One step of a handle set's lifecycle: a handle is duplicated, or a handle
/// is released.
pub enum HandleOp {
    Duplicate,
    Release,
}

/// The number of live handles after `ops`, starting from the single handle
/// that construction yields.
pub open spec fn live_after(ops: Seq<HandleOp>) -> int
    decreases ops.len(),
{
    if ops.len() == 0 {
        1
    } else {
        match ops.last() {
            HandleOp::Duplicate => live_after(ops.drop_last()) + 1,
            HandleOp::Release => live_after(ops.drop_last()) - 1,
        }
    }
}

/// A sequence of operations is admissible when every operation runs while at
/// least one handle is live: an operation needs a handle to run on.
pub open spec fn ops_admissible(ops: Seq<HandleOp>) -> bool {
    forall|i: int| 0 <= i < ops.len() ==> live_after(#[trigger] ops.take(i)) >= 1
}

/// How many operations in `ops` destroy the payload: a release that observes
/// exactly one live handle frees the allocation.
pub open spec fn destructions(ops: Seq<HandleOp>) -> int
    decreases ops.len(),
{
    if ops.len() == 0 {
        0
    } else {
        destructions(ops.drop_last()) + (if ops.last() is Release && live_after(ops.drop_last())
            == 1 {
            1int
        } else {
            0int
        })
    }
}

/// For every admissible sequence of duplications and releases — any
/// interleaving, from any number of threads, once serialized — the payload is
/// destroyed at most once; it is destroyed exactly once precisely when the
/// last handle has been released; and until the final operation of a
/// sequence that releases everything, no destruction has happened at all,
/// so the payload is destroyed only after the last handle is dropped.
pub proof fn lemma_destroyed_exactly_once(ops: Seq<HandleOp>)
    requires
        ops_admissible(ops),
    ensures
        live_after(ops) >= 0,
        live_after(ops) == 0 ==> destructions(ops) == 1,
        live_after(ops) != 0 ==> destructions(ops) == 0,
        forall|i: int|
            0 <= i < ops.len() ==> destructions(#[trigger] ops.take(i)) == 0,
    decreases ops.len(),
{
    if ops.len() == 0 {
    } else {
        let prefix = ops.drop_last();
        assert forall|i: int| 0 <= i < prefix.len() implies live_after(
            #[trigger] prefix.take(i),
        ) >= 1 by {
            assert(prefix.take(i) =~= ops.take(i));
            assert(live_after(ops.take(i)) >= 1);
        }
        lemma_destroyed_exactly_once(prefix);
        assert(ops.take(ops.len() - 1) =~= prefix);
        assert(live_after(prefix) >= 1);
        assert forall|i: int| 0 <= i < ops.len() implies destructions(
            #[trigger] ops.take(i),
        ) == 0 by {
            assert(ops.take(i) =~= prefix.take(i));
            if i < prefix.len() {
                assert(destructions(prefix.take(i)) == 0);
            } else {
                assert(prefix.take(i) =~= prefix);
            }
        }
    }
}

} // verus!
