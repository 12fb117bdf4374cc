//! Opaque-handle registry for native resources.
//!
//! The caller across the managed/native boundary never sees a pointer:
//! it gets an opaque handle from `acquire` and must hand the same handle
//! to exactly one matching `release`.  The registry is an arena keyed by
//! slot index and generation, so a stale or repeated release fails with
//! a recoverable error instead of touching a freed resource, and every
//! live resource is reachable until its one release.

use vstd::prelude::*;
use vstd::pervasive::VecAdditionalExecFns;

verus! {

/// Lifecycle misuse detected by the registry.
#[derive(Clone, Copy, Debug, PartialEq, Eq, Structural)]
pub enum HandleError {
    /// The handle was never issued, or its resource was already released.
    Stale,
}

/// An opaque handle: the slot index plus the generation the slot had
/// when the resource was stored.
#[derive(Clone, Copy, Debug, PartialEq, Eq, Structural)]
pub struct Handle {
    pub index: usize,
    pub generation: u64,
}

/// Arena of owned resources, addressed by `Handle`.
pub struct Registry<T> {
    generations: Vec<u64>,
    slots: Vec<Option<T>>,
}

impl<T> Registry<T> {
    /// Structural soundness: one generation per slot.
    pub closed spec fn wf(&self) -> bool {
        self.generations.len() == self.slots.len()
    }

    /// The live resources, keyed by slot index.
    pub closed spec fn contents(&self) -> Map<int, T> {
        Map::new(
            |i: int| 0 <= i < self.slots@.len() && self.slots@[i] is Some,
            |i: int| self.slots@[i]->0,
        )
    }

    /// Whether `h` currently addresses a live resource.
    pub closed spec fn valid(&self, h: Handle) -> bool {
        &&& h.index < self.slots@.len()
        &&& self.generations@[h.index as int] == h.generation
        &&& self.slots@[h.index as int] is Some
    }

    /// An empty registry.
    pub fn new() -> (r: Self)
        ensures
            r.wf(),
            r.contents() == Map::<int, T>::empty(),
    {
        let r = Registry { generations: Vec::new(), slots: Vec::new() };
        proof {
            assert(r.contents() =~= Map::<int, T>::empty());
        }
        r
    }

    /// Takes ownership of `value` and issues a handle for it.  The handle
    /// is fresh: it was not valid before, and every handle that was valid
    /// stays valid with its resource unchanged.
    pub fn acquire(&mut self, value: T) -> (h: Handle)
        requires
            old(self).wf(),
        ensures
            final(self).wf(),
            final(self).valid(h),
            !old(self).valid(h),
            !old(self).contents().contains_key(h.index as int),
            final(self).contents() == old(self).contents().insert(h.index as int, value),
            forall|g: Handle| old(self).valid(g) ==> #[trigger] final(self).valid(g),
            forall|g: Handle|
                old(self).valid(g) ==> final(self).contents()[g.index as int]
                    == old(self).contents()[g.index as int],
    {
        let mut i: usize = 0;
        while i < self.slots.len()
            invariant
                self.wf(),
                i <= self.slots.len(),
                *self == *old(self),
                forall|j: int| 0 <= j < i ==> self.slots@[j] is Some,
            decreases self.slots.len() - i,
        {
            if self.slots[i].is_none() {
                self.slots.set(i, Some(value));
                let h = Handle { index: i, generation: self.generations[i] };
                proof {
                    assert(final(self).contents() =~= old(self).contents().insert(
                        h.index as int,
                        value,
                    ));
                }
                return h;
            }
            i = i + 1;
        }
        let index = self.slots.len();
        self.slots.push(Some(value));
        self.generations.push(0);
        let h = Handle { index, generation: 0 };
        proof {
            assert(final(self).contents() =~= old(self).contents().insert(h.index as int, value));
        }
        h
    }

    /// Borrows the resource behind a valid handle.
    pub fn get(&self, h: Handle) -> (r: Option<&T>)
        requires
            self.wf(),
        ensures
            r matches Some(v) ==> self.valid(h) && *v == self.contents()[h.index as int],
            r is None ==> !self.valid(h),
    {
        if h.index < self.slots.len() && self.generations[h.index] == h.generation {
            match &self.slots[h.index] {
                Some(v) => Some(v),
                None => None,
            }
        } else {
            None
        }
    }

    /// Takes the resource back and retires the handle.  Succeeds exactly
    /// once per issued handle: the slot's generation moves on, so the
    /// same handle can never address a later occupant.  Every other
    /// valid handle is untouched.
    pub fn release(&mut self, h: Handle) -> (r: Result<T, HandleError>)
        requires
            old(self).wf(),
        ensures
            final(self).wf(),
            r matches Ok(v) ==> old(self).valid(h) && v == old(self).contents()[h.index as int],
            r is Err <==> !old(self).valid(h),
            r is Err ==> *final(self) == *old(self),
            r is Ok ==> final(self).contents() == old(self).contents().remove(h.index as int),
            !final(self).valid(h),
            forall|g: Handle|
                old(self).valid(g) && g.index != h.index ==> #[trigger] final(self).valid(g)
                    && final(self).contents()[g.index as int]
                    == old(self).contents()[g.index as int],
    {
        if h.index < self.slots.len() && self.generations[h.index] == h.generation
            && self.slots[h.index].is_some() {
            let mut taken: Option<T> = None;
            self.slots.set_and_swap(h.index, &mut taken);
            match taken {
                Some(v) => {
                    let g = self.generations[h.index];
                    let g_next = if g == u64::MAX { 0 } else { g + 1 };
                    self.generations.set(h.index, g_next);
                    proof {
                        assert(final(self).contents() =~= old(self).contents().remove(
                            h.index as int,
                        ));
                    }
                    Ok(v)
                },
                None => {
                    proof {
                        assert(false);
                    }
                    Err(HandleError::Stale)
                },
            }
        } else {
            Err(HandleError::Stale)
        }
    }


    /// Whether `h` addresses a slot whose resource is checked out: the
    /// generation still matches, so exactly this handle can put one
    /// back.
    pub closed spec fn checked_out(&self, h: Handle) -> bool {
        &&& h.index < self.slots@.len()
        &&& self.generations@[h.index as int] == h.generation
        &&& self.slots@[h.index as int] is None
    }

    /// Checks the resource out for mutation: the handle stays reserved
    /// (no release or new acquisition can claim the slot meanwhile is
    /// prevented by the matching generation), and `put_back` under the
    /// same handle restores it.
    pub fn take_value(&mut self, h: Handle) -> (r: Result<T, HandleError>)
        requires
            old(self).wf(),
        ensures
            final(self).wf(),
            r matches Ok(v) ==> old(self).valid(h) && v == old(self).contents()[h.index as int]
                && final(self).contents() == old(self).contents().remove(h.index as int)
                && final(self).checked_out(h),
            r is Err <==> !old(self).valid(h),
            r is Err ==> *final(self) == *old(self),
            forall|g: Handle|
                old(self).valid(g) && g.index != h.index ==> #[trigger] final(self).valid(g)
                    && final(self).contents()[g.index as int]
                    == old(self).contents()[g.index as int],
    {
        if h.index < self.slots.len() && self.generations[h.index] == h.generation
            && self.slots[h.index].is_some() {
            let mut taken: Option<T> = None;
            self.slots.set_and_swap(h.index, &mut taken);
            match taken {
                Some(v) => {
                    proof {
                        assert(final(self).contents() =~= old(self).contents().remove(
                            h.index as int,
                        ));
                    }
                    Ok(v)
                },
                None => {
                    proof {
                        assert(false);
                    }
                    Err(HandleError::Stale)
                },
            }
        } else {
            Err(HandleError::Stale)
        }
    }

    /// Restores a checked-out resource under its handle.
    pub fn put_back(&mut self, h: Handle, value: T)
        requires
            old(self).wf(),
            old(self).checked_out(h),
        ensures
            final(self).wf(),
            final(self).valid(h),
            final(self).contents() == old(self).contents().insert(h.index as int, value),
            forall|g: Handle|
                old(self).valid(g) ==> #[trigger] final(self).valid(g)
                    && final(self).contents()[g.index as int]
                    == old(self).contents()[g.index as int],
    {
        self.slots.set(h.index, Some(value));
        proof {
            assert(final(self).contents() =~= old(self).contents().insert(h.index as int, value));
        }
    }

    /// A valid handle's slot is a key of the contents.
    pub proof fn lemma_valid_contains(&self, h: Handle)
        requires
            self.valid(h),
        ensures
            self.contents().contains_key(h.index as int),
    {
    }

    /// How many resources are currently live.
    pub fn live_count(&self) -> (n: usize)
        requires
            self.wf(),
        ensures
            n == self.contents().dom().len(),
    {
        let mut i: usize = 0;
        let mut n: usize = 0;
        proof {
            assert(self.contents().dom() =~= live_indices(self.slots@, 0));
        }
        while i < self.slots.len()
            invariant
                self.wf(),
                i <= self.slots.len(),
                n <= i,
                n == live_indices(self.slots@, 0).len() - live_indices(self.slots@, i as int).len(),
                live_indices(self.slots@, i as int).len() <= live_indices(self.slots@, 0).len(),
            decreases self.slots.len() - i,
        {
            proof {
                lemma_live_indices_step(self.slots@, i as int);
            }
            if self.slots[i].is_some() {
                n = n + 1;
            }
            i = i + 1;
        }
        proof {
            assert(live_indices(self.slots@, self.slots@.len() as int) =~= Set::<int>::empty());
        }
        n
    }
}

/// The indices of occupied slots at or after position `from`.
spec fn live_indices<T>(s: Seq<Option<T>>, from: int) -> Set<int> {
    Set::new(|i: int| from <= i < s.len() && s[i] is Some)
}

proof fn lemma_live_indices_step<T>(s: Seq<Option<T>>, i: int)
    requires
        0 <= i < s.len(),
    ensures
        s[i] is Some ==> live_indices(s, i) == live_indices(s, i + 1).insert(i)
            && !live_indices(s, i + 1).contains(i),
        s[i] is None ==> live_indices(s, i) == live_indices(s, i + 1),
        live_indices(s, i).finite(),
        live_indices(s, i + 1).finite(),
        s[i] is Some ==> live_indices(s, i).len() == live_indices(s, i + 1).len() + 1,
        s[i] is None ==> live_indices(s, i).len() == live_indices(s, i + 1).len(),
    decreases s.len() - i,
{
    if i + 1 < s.len() {
        lemma_live_indices_step(s, i + 1);
    } else {
        assert(live_indices(s, i + 1) =~= Set::<int>::empty());
    }
    if s[i] is Some {
        assert(live_indices(s, i) =~= live_indices(s, i + 1).insert(i));
    } else {
        assert(live_indices(s, i) =~= live_indices(s, i + 1));
    }
}

/// Round-trip law for the handle lifecycle: a fresh acquisition followed
/// by its matching release leaves the registry's live contents exactly
/// as they were — no resource leaks and none is lost.  `acquire` ensures
/// the new key is fresh and inserts it; `release` removes it; this lemma
/// closes the loop.
pub proof fn lemma_acquire_release_round_trip<T>(before: Map<int, T>, key: int, value: T)
    requires
        !before.contains_key(key),
    ensures
        before.insert(key, value).remove(key) == before,
{
    assert(before.insert(key, value).remove(key) =~= before);
}

} // verus!
