//! The single-threaded core of an arena: an append-only sequence of
//! canonical instances with pairwise distinct contents.
use vstd::prelude::*;

use std::collections::HashMap;
use std::hash::{BuildHasher, RandomState};
use vstd::std_specs::hash::builds_valid_hashers;

use crate::content::Content;

verus! {

/// Contents of `s` are pairwise distinct.
pub open spec fn distinct<V>(s: Seq<V>) -> bool {
    forall|i: int, j: int| 0 <= i < j < s.len() ==> s[i] != s[j]
}

/// The contents after `v` is offered to a store holding `s`: unchanged when
/// `v` is already present, else `v` appended.
pub open spec fn after_insert<V>(s: Seq<V>, v: V) -> Seq<V> {
    if s.contains(v) {
        s
    } else {
        s.push(v)
    }
}

/// The contents after each of `vs` is offered in turn.
pub open spec fn after_inserts<V>(s: Seq<V>, vs: Seq<V>) -> Seq<V>
    decreases vs.len(),
{
    if vs.len() == 0 {
        s
    } else {
        after_insert(after_inserts(s, vs.drop_last()), vs.last())
    }
}

/// Offering a value keeps the contents distinct and holds it afterwards.
pub proof fn lemma_insert_keeps_distinct<V>(s: Seq<V>, v: V)
    requires
        distinct(s),
    ensures
        distinct(after_insert(s, v)),
        after_insert(s, v).contains(v),
{
    if !s.contains(v) {
        assert(after_insert(s, v)[s.len() as int] == v);
    }
}

/// However many values are offered afterwards, every canonical instance
/// stays at its position with its content: the store only ever appends.
pub proof fn law_stable<V>(s: Seq<V>, vs: Seq<V>)
    ensures
        s.is_prefix_of(after_inserts(s, vs)),
    decreases vs.len(),
{
    if vs.len() > 0 {
        law_stable(s, vs.drop_last());
    }
}

/// Whatever values are offered, in whatever order, each content offered
/// ends up held exactly once.
pub proof fn law_one_instance_per_content<V>(s: Seq<V>, vs: Seq<V>)
    requires
        distinct(s),
    ensures
        distinct(after_inserts(s, vs)),
        forall|k: int| 0 <= k < vs.len() ==> after_inserts(s, vs).contains(#[trigger] vs[k]),
    decreases vs.len(),
{
    if vs.len() > 0 {
        let init = vs.drop_last();
        law_one_instance_per_content(s, init);
        let before = after_inserts(s, init);
        lemma_insert_keeps_distinct(before, vs.last());
        assert forall|k: int| 0 <= k < vs.len() implies after_inserts(s, vs).contains(
            #[trigger] vs[k],
        ) by {
            if k < vs.len() - 1 {
                assert(init[k] == vs[k]);
                let m = choose|m: int| 0 <= m < before.len() && before[m] == vs[k];
                assert(after_inserts(s, vs)[m] == vs[k]);
            }
        }
    }
}

/// Offer `a`, then any values `vs`, then `b`: the position returned for `b`
/// is the one returned for `a` exactly when their contents are equal. Equal
/// contents share one canonical instance, unequal contents never do.
pub proof fn law_dedup<V>(s: Seq<V>, a: V, i: int, vs: Seq<V>, b: V, j: int)
    requires
        distinct(s),
        0 <= i < after_insert(s, a).len(),
        after_insert(s, a)[i] == a,
        0 <= j < after_insert(after_inserts(after_insert(s, a), vs), b).len(),
        after_insert(after_inserts(after_insert(s, a), vs), b)[j] == b,
    ensures
        i == j <==> a == b,
{
    lemma_insert_keeps_distinct(s, a);
    let s1 = after_insert(s, a);
    law_stable(s1, vs);
    law_one_instance_per_content(s1, vs);
    let mid = after_inserts(s1, vs);
    lemma_insert_keeps_distinct(mid, b);
    let s2 = after_insert(mid, b);
    assert(mid[i] == s1[i]);
    assert(s2[i] == mid[i]);
}

/// The number of canonical instances never decreases, and it grows, by
/// one, exactly when the offered content was not yet held.
pub proof fn law_monotonic_growth<V>(s: Seq<V>, v: V)
    ensures
        after_insert(s, v).len() >= s.len(),
        after_insert(s, v).len() == s.len() + 1 <==> !s.contains(v),
        after_insert(s, v).len() == s.len() <==> s.contains(v),
{
}

/// The sequence of canonical instances, in the order their contents were
/// first seen, with an index from content digest to positions. Each instance
/// is held by a reference that lives as long as the process. `H` builds the
/// hashers of the index.
///
/// The index is keyed by `Content::digest`, a `u64` that is a function of the
/// content alone, rather than by the instances themselves: vstd models a
/// `HashMap` only for keys whose hashing it knows (integers among them), so a
/// map keyed by `&'static T` would carry no usable contract, and the proof
/// that no content is stored twice rests on the index's contents.
#[verifier::reject_recursive_types(H)]
pub struct Store<T: ?Sized + 'static, H = RandomState> {
    values: Vec<&'static T>,
    index: HashMap<u64, Vec<usize>, H>,
}

impl<T: ?Sized + Content, H> View for Store<T, H> {
    type V = Seq<T::V>;

    /// The contents of the canonical instances, by position.
    closed spec fn view(&self) -> Seq<T::V> {
        self.values@.map_values(|r: &'static T| r@)
    }
}

impl<T: ?Sized + Content, H> Store<T, H> {
    /// Every position is listed under its content's digest, and every listed
    /// position is in range.
    closed spec fn indexed(&self) -> bool {
        &&& forall|i: int|
            0 <= i < self@.len() ==> {
                &&& self.index@.contains_key(T::digest_of(#[trigger] self@[i]))
                &&& self.index@[T::digest_of(self@[i])]@.contains(i as usize)
            }
        &&& forall|k: u64, j: int|
            self.index@.contains_key(k) && 0 <= j < self.index@[k]@.len() ==> #[trigger] self.index@[k]@[j]
                < self@.len()
    }

    /// No two canonical instances have the same content, and the index
    /// lists every instance.
    pub closed spec fn wf(&self) -> bool {
        &&& distinct(self@)
        &&& self.indexed()
    }

    /// A well-formed store holds pairwise distinct contents.
    pub proof fn lemma_wf_distinct(&self)
        requires
            self.wf(),
        ensures
            distinct(self@),
    {
    }

    /// The canonical instance at position `i`.
    pub closed spec fn entry(&self, i: int) -> &'static T {
        self.values@[i]
    }

    pub fn len(&self) -> (n: usize)
        ensures
            n == self@.len(),
    {
        self.values.len()
    }

    /// The canonical instance at position `i`.
    pub fn get(&self, i: usize) -> (r: &'static T)
        requires
            i < self@.len(),
        ensures
            r == self.entry(i as int),
            r@ == self@[i as int],
    {
        self.values[i]
    }
}

impl<T: ?Sized + Content, H: BuildHasher + Default> Store<T, H> {
    pub fn new() -> (s: Self)
        ensures
            s.wf(),
            s@ == Seq::<T::V>::empty(),
    {
        let s = Store { values: Vec::new(), index: HashMap::default() };
        assert(s@ =~= Seq::<T::V>::empty());
        s
    }
}

impl<T: ?Sized + Content, H: BuildHasher> Store<T, H> {
    /// Position of the canonical instance whose content is `value`'s, if
    /// any; `d` is `value`'s digest.
    fn find_digest(&self, value: &T, d: u64) -> (r: Option<usize>)
        requires
            self.wf(),
            builds_valid_hashers::<H>(),
            d == T::digest_of(value@),
        ensures
            match r {
                Some(i) => i < self@.len() && self@[i as int] == value@,
                None => !self@.contains(value@),
            },
    {
        broadcast use vstd::std_specs::hash::group_hash_axioms;

        match self.index.get(&d) {
            None => {
                assert forall|i: int| 0 <= i < self@.len() implies self@[i] != value@ by {
                    if self@[i] == value@ {
                        assert(self.index@.contains_key(T::digest_of(self@[i])));
                    }
                }
                None
            },
            Some(bucket) => {
                let total = self.values.len();
                let n = bucket.len();
                let mut j: usize = 0;
                while j < n
                    invariant
                        self.wf(),
                        self.index@.contains_key(d),
                        bucket@ == self.index@[d]@,
                        n == bucket@.len(),
                        j <= n,
                        total == self@.len(),
                        forall|m: int| 0 <= m < j ==> self@[#[trigger] bucket@[m] as int] != value@,
                    decreases n - j,
                {
                    let p = bucket[j];
                    assert(self.index@[d]@[j as int] == p);
                    let candidate: &'static T = self.values[p];
                    if candidate.same_content(value) {
                        return Some(p);
                    }
                    j = j + 1;
                }
                assert forall|i: int| 0 <= i < self@.len() implies self@[i] != value@ by {
                    if self@[i] == value@ {
                        assert(bucket@.contains(i as usize));
                        let m = choose|m: int| 0 <= m < bucket@.len() && bucket@[m] == i as usize;
                        assert(self@[bucket@[m] as int] != value@);
                    }
                }
                None
            },
        }
    }

    /// Position of the canonical instance whose content is `value`'s, if any.
    pub fn find(&self, value: &T) -> (r: Option<usize>)
        requires
            self.wf(),
            builds_valid_hashers::<H>(),
        ensures
            match r {
                Some(i) => i < self@.len() && self@[i as int] == value@,
                None => !self@.contains(value@),
            },
    {
        self.find_digest(value, value.digest())
    }

    /// Returns the position of the canonical instance with `value`'s content,
    /// appending `value` as a new canonical instance when there is none.
    /// Existing instances keep their position and their reference.
    pub fn insert(&mut self, value: &'static T) -> (r: usize)
        requires
            old(self).wf(),
            builds_valid_hashers::<H>(),
        ensures
            final(self).wf(),
            distinct(final(self)@),
            final(self)@ == after_insert(old(self)@, value@),
            r < final(self)@.len(),
            final(self)@[r as int] == value@,
            !old(self)@.contains(value@) ==> r == old(self)@.len() && final(self).entry(
                r as int,
            ) == value,
            forall|i: int|
                0 <= i < old(self)@.len() ==> #[trigger] final(self).entry(i) == old(self).entry(i),
    {
        broadcast use vstd::std_specs::hash::group_hash_axioms;

        let d = value.digest();
        match self.find_digest(value, d) {
            Some(i) => i,
            None => {
                let n = self.values.len();
                self.values.push(value);
                assert(self@ =~= old(self)@.push(value@));
                let mut bucket = match self.index.remove(&d) {
                    Some(b) => b,
                    None => Vec::new(),
                };
                bucket.push(n);
                self.index.insert(d, bucket);
                proof {
                    let old_index = old(self).index@;
                    assert forall|i: int| 0 <= i < self@.len() implies {
                        &&& self.index@.contains_key(T::digest_of(#[trigger] self@[i]))
                        &&& self.index@[T::digest_of(self@[i])]@.contains(i as usize)
                    } by {
                        if i < n {
                            assert(old(self)@[i] == self@[i]);
                            if T::digest_of(self@[i]) == d {
                                assert(old_index[d]@.contains(i as usize));
                                let m = choose|m: int|
                                    0 <= m < old_index[d]@.len() && old_index[d]@[m] == i as usize;
                                assert(self.index@[d]@[m] == i as usize);
                            }
                        } else {
                            assert(self.index@[d]@[bucket@.len() - 1] == n);
                        }
                    }
                    assert forall|k: u64, j: int|
                        self.index@.contains_key(k) && 0 <= j < self.index@[k]@.len() implies #[trigger] self.index@[k]@[j]
                        < self@.len() by {
                        if k == d && j < self.index@[k]@.len() - 1 {
                            assert(self.index@[k]@[j] == old_index[d]@[j]);
                        }
                    }
                }
                n
            },
        }
    }
}

} // verus!
