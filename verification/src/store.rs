use vstd::prelude::*;
use crate::components::EntityId;
use crate::search::first_index;

verus! {

broadcast use crate::search::lemma_first_index;

// A component storage is a list of (entity, component) entries, one per entity; a marker
// storage (a component without data) is a list of entities.

/// The predicate "is the entry of `e`".
pub open spec fn key_pred<T>(e: EntityId) -> spec_fn((EntityId, T)) -> bool {
    |p: (EntityId, T)| p.0 == e
}

/// The component of `e`, if it has one.
pub open spec fn lookup<T>(s: Seq<(EntityId, T)>, e: EntityId) -> Option<T> {
    match first_index(s, key_pred::<T>(e)) {
        Some(k) => Some(s[k].1),
        None => None,
    }
}

/// The storage after `e` gets the component `v`, in place of the one it had.
pub open spec fn inserted<T>(s: Seq<(EntityId, T)>, e: EntityId, v: T) -> Seq<(EntityId, T)> {
    match first_index(s, key_pred::<T>(e)) {
        Some(k) => s.update(k, (e, v)),
        None => s.push((e, v)),
    }
}

/// The storage after the component of `e` is taken away.
pub open spec fn removed<T>(s: Seq<(EntityId, T)>, e: EntityId) -> Seq<(EntityId, T)> {
    match first_index(s, key_pred::<T>(e)) {
        Some(k) => s.remove(k),
        None => s,
    }
}

/// The predicate "is `e`".
pub open spec fn is_pred(e: EntityId) -> spec_fn(EntityId) -> bool {
    |x: EntityId| x == e
}

/// The marker storage after `e` gets the marker.
pub open spec fn marked(s: Seq<EntityId>, e: EntityId) -> Seq<EntityId> {
    match first_index(s, is_pred(e)) {
        Some(_) => s,
        None => s.push(e),
    }
}

/// The marker storage after the marker of `e` is taken away.
pub open spec fn unmarked(s: Seq<EntityId>, e: EntityId) -> Seq<EntityId> {
    match first_index(s, is_pred(e)) {
        Some(k) => s.remove(k),
        None => s,
    }
}

/// The index of the entry of `e`.
pub fn find_key<T>(s: &Vec<(EntityId, T)>, e: EntityId) -> (r: Option<usize>)
    ensures
        match r {
            Some(k) => first_index(s@, key_pred::<T>(e)) == Some(k as int),
            None => first_index(s@, key_pred::<T>(e)) is None,
        },
{
    let ghost p = key_pred::<T>(e);
    let mut i: usize = 0;
    while i < s.len()
        invariant
            i <= s@.len(),
            p == key_pred::<T>(e),
            forall|j: int| 0 <= j < i ==> !p(s@[j]),
        decreases s@.len() - i,
    {
        if s[i].0 == e {
            proof { crate::search::lemma_first_index_is(s@, p, i as int); }
            return Some(i);
        }
        i = i + 1;
    }
    proof { crate::search::lemma_first_index_none(s@, p); }
    None
}

/// Gives `e` the component `v`, in place of the one it had.
pub fn store_insert<T>(s: &mut Vec<(EntityId, T)>, e: EntityId, v: T)
    ensures
        final(s)@ == inserted(old(s)@, e, v),
{
    match find_key(s, e) {
        Some(k) => {
            s.remove(k);
            s.insert(k, (e, v));
            assert(s@ =~= inserted(old(s)@, e, v));
        },
        None => {
            s.push((e, v));
        },
    }
}

/// Takes the component of `e` away.
pub fn store_remove<T>(s: &mut Vec<(EntityId, T)>, e: EntityId)
    ensures
        final(s)@ == removed(old(s)@, e),
{
    match find_key(s, e) {
        Some(k) => {
            s.remove(k);
        },
        None => {},
    }
}

/// The index of `e` in the marker storage.
pub fn find_marked(s: &Vec<EntityId>, e: EntityId) -> (r: Option<usize>)
    ensures
        match r {
            Some(k) => first_index(s@, is_pred(e)) == Some(k as int),
            None => first_index(s@, is_pred(e)) is None,
        },
{
    let ghost p = is_pred(e);
    let mut i: usize = 0;
    while i < s.len()
        invariant
            i <= s@.len(),
            p == is_pred(e),
            forall|j: int| 0 <= j < i ==> !p(s@[j]),
        decreases s@.len() - i,
    {
        if s[i] == e {
            proof { crate::search::lemma_first_index_is(s@, p, i as int); }
            return Some(i);
        }
        i = i + 1;
    }
    proof { crate::search::lemma_first_index_none(s@, p); }
    None
}

/// Gives `e` the marker.
pub fn mark(s: &mut Vec<EntityId>, e: EntityId)
    ensures
        final(s)@ == marked(old(s)@, e),
{
    match find_marked(s, e) {
        Some(_) => {},
        None => {
            s.push(e);
        },
    }
}

/// Takes the marker of `e` away.
pub fn unmark(s: &mut Vec<EntityId>, e: EntityId)
    ensures
        final(s)@ == unmarked(old(s)@, e),
{
    match find_marked(s, e) {
        Some(k) => {
            s.remove(k);
        },
        None => {},
    }
}

/// Inserts a component wrapped in an Option if it is Some(T)
pub fn maybe_insert<T>(s: &mut Vec<(EntityId, T)>, onto: EntityId, maybe_component: Option<T>)
    ensures
        final(s)@ == match maybe_component {
            Some(c) => inserted(old(s)@, onto, c),
            None => old(s)@,
        },
{
    match maybe_component {
        Some(component) => store_insert(s, onto, component),
        None => {},
    }
}

/// No entity has two entries.
pub open spec fn unique_keys<T>(s: Seq<(EntityId, T)>) -> bool {
    forall|i: int, j: int| 0 <= i < s.len() && 0 <= j < s.len() && i != j ==> (#[trigger] s[i]).0 != (#[trigger] s[j]).0
}

/// Reading a component back after it was given gives what was given, and the components of
/// other entities are as they were.
pub proof fn lemma_lookup_inserted<T>(s: Seq<(EntityId, T)>, e: EntityId, v: T, f: EntityId)
    ensures
        lookup(inserted(s, e, v), e) == Some(v),
        f != e ==> lookup(inserted(s, e, v), f) == lookup(s, f),
{
    let p = key_pred::<T>(e);
    let q = key_pred::<T>(f);
    let t = inserted(s, e, v);
    match first_index(s, p) {
        Some(k) => {
            crate::search::lemma_first_index_is(t, p, k);
            if f != e {
                match first_index(s, q) {
                    Some(j) => {
                        assert(t[j] == s[j]);
                        assert forall|m: int| 0 <= m < j implies !q(t[m]) by {
                            if m != k { assert(t[m] == s[m]); }
                        }
                        crate::search::lemma_first_index_is(t, q, j);
                    },
                    None => {
                        assert forall|m: int| 0 <= m < t.len() implies !q(t[m]) by {
                            if m != k { assert(t[m] == s[m]); }
                        }
                        crate::search::lemma_first_index_none(t, q);
                    },
                }
            }
        },
        None => {
            assert forall|m: int| 0 <= m < s.len() implies !p(t[m]) by {
                assert(t[m] == s[m]);
            }
            crate::search::lemma_first_index_is(t, p, s.len() as int);
            if f != e {
                match first_index(s, q) {
                    Some(j) => {
                        assert forall|m: int| 0 <= m < j implies !q(t[m]) by {
                            assert(t[m] == s[m]);
                        }
                        assert(t[j] == s[j]);
                        crate::search::lemma_first_index_is(t, q, j);
                    },
                    None => {
                        assert forall|m: int| 0 <= m < t.len() implies !q(t[m]) by {
                            if m < s.len() { assert(t[m] == s[m]); }
                        }
                        crate::search::lemma_first_index_none(t, q);
                    },
                }
            }
        },
    }
}

/// Giving a component keeps every entity to one entry.
pub proof fn lemma_inserted_unique<T>(s: Seq<(EntityId, T)>, e: EntityId, v: T)
    requires
        unique_keys(s),
    ensures
        unique_keys(inserted(s, e, v)),
{
    let t = inserted(s, e, v);
    match first_index(s, key_pred::<T>(e)) {
        Some(k) => {
            assert forall|i: int, j: int| 0 <= i < t.len() && 0 <= j < t.len() && i != j implies (#[trigger] t[i]).0 != (#[trigger] t[j]).0 by {
                assert(t[i].0 == s[i].0);
                assert(t[j].0 == s[j].0);
            }
        },
        None => {
            assert forall|i: int, j: int| 0 <= i < t.len() && 0 <= j < t.len() && i != j implies (#[trigger] t[i]).0 != (#[trigger] t[j]).0 by {
                if i < s.len() && j < s.len() {
                    assert(t[i] == s[i]);
                    assert(t[j] == s[j]);
                } else if i < s.len() {
                    assert(t[i] == s[i]);
                    assert(!key_pred::<T>(e)(s[i]));
                } else {
                    assert(t[j] == s[j]);
                    assert(!key_pred::<T>(e)(s[j]));
                }
            }
        },
    }
}

/// After its component is taken away, an entity that had one entry has none, and the
/// components of other entities are as they were.
pub proof fn lemma_lookup_removed<T>(s: Seq<(EntityId, T)>, e: EntityId, f: EntityId)
    requires
        unique_keys(s),
    ensures
        lookup(removed(s, e), e) is None,
        f != e ==> lookup(removed(s, e), f) == lookup(s, f),
{
    let p = key_pred::<T>(e);
    let q = key_pred::<T>(f);
    match first_index(s, p) {
        Some(k) => {
            let t = s.remove(k);
            assert forall|m: int| 0 <= m < t.len() implies !p(t[m]) by {
                if m < k {
                    assert(t[m] == s[m]);
                } else {
                    assert(t[m] == s[m + 1]);
                    assert(s[m + 1].0 != s[k].0);
                }
            }
            crate::search::lemma_first_index_none(t, p);
            if f != e {
                match first_index(s, q) {
                    Some(j) => {
                        assert(j != k);
                        if j < k {
                            assert(t[j] == s[j]);
                            assert forall|m: int| 0 <= m < j implies !q(t[m]) by { assert(t[m] == s[m]); }
                            crate::search::lemma_first_index_is(t, q, j);
                        } else {
                            assert(t[j - 1] == s[j]);
                            assert forall|m: int| 0 <= m < j - 1 implies !q(t[m]) by {
                                if m < k { assert(t[m] == s[m]); } else { assert(t[m] == s[m + 1]); }
                            }
                            crate::search::lemma_first_index_is(t, q, j - 1);
                        }
                    },
                    None => {
                        assert forall|m: int| 0 <= m < t.len() implies !q(t[m]) by {
                            if m < k { assert(t[m] == s[m]); } else { assert(t[m] == s[m + 1]); }
                        }
                        crate::search::lemma_first_index_none(t, q);
                    },
                }
            }
        },
        None => {},
    }
}

} // verus!
