//! Arenas: an owned one, whose contract states what every insertion does to
//! its contents, and a shared one for process-wide use, where one lock
//! guards the whole check-then-insert step.
use vstd::prelude::*;
use std::hash::{BuildHasher, RandomState};
use vstd::rwlock::{RwLock, RwLockPredicate};
use vstd::std_specs::hash::builds_valid_hashers;

use crate::content::Content;
use crate::promote::promote;
use crate::store::{after_insert, distinct, Store};

verus! {

/// What every state of a shared arena satisfies: no two canonical
/// instances share a content.
pub struct Canonical;

impl<T: ?Sized + Content, H> RwLockPredicate<Arena<T, H>> for Canonical {
    open spec fn inv(self, a: Arena<T, H>) -> bool {
        a.wf()
    }
}

/// Any state of a shared arena that its lock hands out or takes back holds
/// at most one canonical instance per content. Since `SharedArena::insert`
/// looks up and appends while holding the write lock, threads that insert
/// equal contents concurrently can never leave two instances behind.
pub proof fn law_one_instance_under_lock<T: ?Sized + Content, H>(a: Arena<T, H>)
    requires
        Canonical.inv(a),
    ensures
        distinct(a@),
{
    a.lemma_wf_distinct();
}

/// An append-only, deduplicating store of canonical instances. `H` builds
/// the hashers of its index.
///
/// Insertion takes the arena by `&mut`, so each insertion is one critical
/// section: to share an arena between threads, put it behind a lock (a
/// `std::sync::Mutex` fails fast once a thread panicked while holding it),
/// or use `SharedArena`.
#[verifier::reject_recursive_types(H)]
pub struct Arena<T: ?Sized + Content + 'static, H = RandomState> {
    store: Store<T, H>,
}

impl<T: ?Sized + Content, H> View for Arena<T, H> {
    type V = Seq<T::V>;

    /// The contents of the canonical instances, in the order first seen.
    closed spec fn view(&self) -> Seq<T::V> {
        self.store@
    }
}

impl<T: ?Sized + Content, H> Arena<T, H> {
    /// No two canonical instances share a content.
    pub closed spec fn wf(&self) -> bool {
        self.store.wf()
    }

    /// The canonical instance at position `i`.
    pub closed spec fn instance(&self, i: int) -> &'static T {
        self.store.entry(i)
    }

    /// A well-formed arena holds pairwise distinct contents.
    pub proof fn lemma_wf_distinct(&self)
        requires
            self.wf(),
        ensures
            distinct(self@),
    {
        self.store.lemma_wf_distinct();
    }

    /// What inserting `value` into `before` does, giving `r` and `after`:
    /// the contents gain `value`'s content if it was missing; `r` has that
    /// content and is the instance held for it afterwards; on a hit `r` is
    /// the instance held before, on a miss it is `value` itself, appended
    /// last; no instance moves.
    pub open spec fn inserts(before: Self, value: &'static T, r: &'static T, after: Self) -> bool {
        &&& after@ == after_insert(before@, value@)
        &&& r@ == value@
        &&& exists|p: int| 0 <= p < after@.len() && after@[p] == value@ && after.instance(p) == r
        &&& forall|i: int|
            0 <= i < before@.len() && #[trigger] before@[i] == value@ ==> r == before.instance(i)
        &&& !before@.contains(value@) ==> r == value && after.instance(before@.len() as int)
            == value
        &&& forall|i: int|
            0 <= i < before@.len() ==> #[trigger] after.instance(i) == before.instance(i)
    }

    /// The number of canonical instances.
    pub fn len(&self) -> (n: usize)
        ensures
            n == self@.len(),
    {
        self.store.len()
    }
}

impl<T: ?Sized + Content> Arena<T> {
    /// An empty arena with the default hashers.
    pub fn new() -> (a: Self)
        ensures
            a.wf(),
            a@ == Seq::<T::V>::empty(),
    {
        Arena { store: Store::new() }
    }
}

impl<T: ?Sized + Content, H: BuildHasher> Arena<T, H> {
    /// Returns the canonical instance with `value`'s content. On a miss,
    /// `value` itself becomes the canonical instance, appended after the
    /// others; on a hit, the contents are unchanged and the instance
    /// already held is returned. Existing instances never move.
    pub fn insert(&mut self, value: &'static T) -> (r: &'static T)
        requires
            old(self).wf(),
            builds_valid_hashers::<H>(),
        ensures
            final(self).wf(),
            Self::inserts(*old(self), value, r, *final(self)),
    {
        let i = self.store.insert(value);
        let r = self.store.get(i);
        proof {
            old(self).lemma_wf_distinct();
            if old(self)@.contains(value@) {
                assert(self.store.entry(i as int) == old(self).store.entry(i as int));
                assert(old(self)@[i as int] == value@);
            }
            assert(self@[i as int] == value@ && self.instance(i as int) == r);
        }
        r
    }

    /// Gives the arena permanent ownership of `value`, then inserts it.
    pub fn insert_owned(&mut self, value: T) -> (r: &'static T)
        where T: Sized,
        requires
            old(self).wf(),
            builds_valid_hashers::<H>(),
        ensures
            final(self).wf(),
            final(self)@ == after_insert(old(self)@, value@),
            r@ == value@,
            forall|i: int|
                0 <= i < old(self)@.len() && #[trigger] old(self)@[i] == value@ ==> r == old(
                    self,
                ).instance(i),
            !old(self)@.contains(value@) ==> *r == value && final(self).instance(
                old(self)@.len() as int,
            ) == r,
            forall|i: int|
                0 <= i < old(self)@.len() ==> #[trigger] final(self).instance(i) == old(self).instance(i),
    {
        self.insert(promote(value))
    }
}

impl<T: ?Sized + Content, H: BuildHasher + Default> Default for Arena<T, H> {
    /// An empty arena.
    fn default() -> (a: Self)
        ensures
            a.wf(),
            a@ == Seq::<T::V>::empty(),
    {
        Arena { store: Store::new() }
    }
}

/// Insert `x`, then `y`: equal contents get the very instance returned
/// the first time, which stays held; unequal contents get instances of
/// unequal contents, so never the same one; the number of instances grows
/// by at most one per insertion, and only on a new content.
pub proof fn law_arena_dedup<T: ?Sized + Content, H>(
    a0: Arena<T, H>,
    x: &'static T,
    r1: &'static T,
    a1: Arena<T, H>,
    y: &'static T,
    r2: &'static T,
    a2: Arena<T, H>,
)
    requires
        a0.wf(),
        a1.wf(),
        Arena::inserts(a0, x, r1, a1),
        Arena::inserts(a1, y, r2, a2),
    ensures
        x@ == y@ ==> r2 == r1,
        x@ != y@ ==> r2 != r1,
        exists|p: int| 0 <= p < a2@.len() && a2@[p] == x@ && a2.instance(p) == r1,
        a0@.len() <= a1@.len() <= a2@.len(),
        a1@.len() == a0@.len() + 1 <==> !a0@.contains(x@),
{
    let p = choose|p: int| 0 <= p < a1@.len() && a1@[p] == x@ && a1.instance(p) == r1;
    assert(a2@[p] == a1@[p]);
    assert(a2.instance(p) == a1.instance(p));
    if x@ == y@ {
        assert(a1@[p] == y@);
    }
}

/// An arena that threads share through `&self`, for process-wide use. One
/// write lock covers the lookup and the append, and the lock's predicate is
/// that the contents are pairwise distinct. `H` builds the hashers of its
/// index.
#[verifier::reject_recursive_types(H)]
pub struct SharedArena<T: ?Sized + Content + 'static, H = RandomState> {
    arena: RwLock<Arena<T, H>, Canonical>,
}

impl<T: ?Sized + Content> SharedArena<T> {
    /// An empty arena with the default hashers.
    pub fn new() -> Self {
        Self::default()
    }
}

impl<T: ?Sized + Content, H: BuildHasher> SharedArena<T, H> {
    /// Returns the canonical instance with `value`'s content: `Arena::insert`
    /// under the write lock, so racing insertions of equal contents agree on
    /// a single instance. Other threads may insert between two calls, so the
    /// contract states what holds of every interleaving: the instance has
    /// `value`'s content.
    ///
    /// The lock does not poison: the code that runs under it is verified not
    /// to panic, but a `Content` impl or a hasher written outside this crate
    /// that panics there leaves the lock held, and every later insertion on
    /// this arena then waits forever instead of failing. Arenas of other
    /// types are not affected.
    pub fn insert(&'static self, value: &'static T) -> (r: &'static T)
        requires
            builds_valid_hashers::<H>(),
        ensures
            r@ == value@,
    {
        let (mut arena, handle) = self.arena.acquire_write();
        let r = arena.insert(value);
        handle.release_write(arena);
        r
    }

    /// Gives the arena permanent ownership of `value`, then inserts it.
    pub fn insert_owned(&'static self, value: T) -> (r: &'static T)
        where T: Sized,
        requires
            builds_valid_hashers::<H>(),
        ensures
            r@ == value@,
    {
        self.insert(promote(value))
    }
}

impl<T: ?Sized + Content, H: BuildHasher + Default> Default for SharedArena<T, H> {
    /// An empty arena.
    fn default() -> Self {
        SharedArena { arena: RwLock::new(Arena::default(), Ghost(Canonical)) }
    }
}

} // verus!
