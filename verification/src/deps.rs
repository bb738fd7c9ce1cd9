//! Dependencies resolved when a bus is built: a map from types to values.
use std::any::{Any, TypeId};
use vstd::prelude::*;

use crate::error::EventBusError;

verus! {

/// std's `TypeId`, the key of a stored dependency, carried as an opaque
/// value.
#[verifier::external_type_specification]
#[verifier::external_body]
pub struct ExTypeId(TypeId);

/// Key of `T`: calls `TypeId::of` of std. Nothing is promised of the key:
/// std documents it as an opaque identifier that may differ between builds.
#[verifier::external_body]
fn type_key<T: ?Sized + 'static>() -> TypeId {
    TypeId::of::<T>()
}

/// Whether two keys are the same: calls `TypeId`'s `==` of std, which
/// compares the identifiers.
#[verifier::external_body]
fn same_key(a: &TypeId, b: &TypeId) -> (r: bool)
    ensures
        r == (*a == *b),
{
    *a == *b
}

/// A stored dependency of any type, boxed as `dyn Any + Send + Sync`; the
/// value is held opaque and carried through unread.
#[verifier::external_body]
pub struct DepValue {
    inner: Box<dyn Any + Send + Sync>,
}

/// Boxes `val` as an opaque value: calls `Box::new` of std.
#[verifier::external_body]
fn boxed<T: Send + Sync + 'static>(val: T) -> DepValue {
    DepValue { inner: Box::new(val) }
}

/// The value behind `v` if it is a `T`: calls `downcast_ref` of std, which
/// compares the stored value's type with `T`. Nothing is promised of the
/// outcome.
#[verifier::external_body]
fn downcast<T: 'static>(v: &DepValue) -> Option<&T> {
    v.inner.downcast_ref::<T>()
}

/// The text of a key: formats the `TypeId` with its `Debug` impl of std,
/// whose output std leaves unspecified; nothing is promised of it.
#[verifier::external_body]
fn key_text(key: &TypeId) -> String {
    format!("{:?}", key)
}

/// A type-map container for handler dependencies resolved at bus build time.
///
/// Each type is held at most once: inserting a value of a type already held
/// replaces the earlier value.
pub struct Deps {
    entries: Vec<(TypeId, DepValue)>,
}

impl Deps {
    /// The keys held, in insertion order.
    pub closed spec fn keys(self) -> Seq<TypeId> {
        self.entries@.map_values(|e: (TypeId, DepValue)| e.0)
    }

    /// The value held under each key.
    pub closed spec fn held(self) -> Map<TypeId, DepValue> {
        Map::new(
            |k: TypeId| self.keys().contains(k),
            |k: TypeId|
                self.entries@[choose|i: int|
                    0 <= i < self.entries@.len() && (#[trigger] self.entries@[i]).0 == k].1,
        )
    }

    /// No key is held twice.
    #[verifier::type_invariant]
    closed spec fn distinct_keys(self) -> bool {
        forall|i: int, j: int|
            0 <= i < j < self.entries@.len() ==> self.entries@[i].0 != self.entries@[j].0
    }

    /// With distinct keys, the entry at `i` is what `held` maps its key to.
    proof fn lemma_held_at(self, i: int)
        requires
            self.distinct_keys(),
            0 <= i < self.entries@.len(),
        ensures
            self.held().contains_key(self.entries@[i].0),
            self.held()[self.entries@[i].0] == self.entries@[i].1,
    {
        let k = self.entries@[i].0;
        assert(self.keys()[i] == k);
        assert(self.keys().contains(k));
        let j = choose|j: int| 0 <= j < self.entries@.len() && (#[trigger] self.entries@[j]).0 == k;
        if j != i {
            if j < i {
                assert(self.entries@[j].0 != self.entries@[i].0);
            } else {
                assert(self.entries@[i].0 != self.entries@[j].0);
            }
        }
    }

    /// Every key `held` maps is the key of some entry.
    proof fn lemma_held_keys(self, k: TypeId)
        requires
            self.held().contains_key(k),
        ensures
            exists|i: int| 0 <= i < self.entries@.len() && self.entries@[i].0 == k,
    {
        let i = choose|i: int| 0 <= i < self.keys().len() && self.keys()[i] == k;
        assert(self.entries@[i].0 == k);
    }

    /// Creates an empty container.
    pub fn new() -> (r: Deps)
        ensures
            r.keys().len() == 0,
            r.held() == Map::<TypeId, DepValue>::empty(),
    {
        let r = Deps { entries: Vec::new() };
        proof {
            assert(r.held() =~= Map::<TypeId, DepValue>::empty());
        }
        r
    }

    fn position(&self, key: &TypeId) -> (r: Option<usize>)
        ensures
            match r {
                Some(i) => i < self.keys().len() && self.keys()[i as int] == *key,
                None => !self.keys().contains(*key),
            },
    {
        let mut i: usize = 0;
        while i < self.entries.len()
            invariant
                i <= self.entries@.len(),
                forall|k: int| 0 <= k < i ==> self.entries@[k].0 != *key,
            decreases self.entries@.len() - i,
        {
            if same_key(&self.entries[i].0, key) {
                return Some(i);
            }
            i = i + 1;
        }
        proof {
            if self.keys().contains(*key) {
                let k = choose|k: int| 0 <= k < self.keys().len() && self.keys()[k] == *key;
                assert(self.entries@[k].0 == *key);
            }
        }
        None
    }

    /// Inserts a value of type `T`, replacing any value of the same type
    /// held before.
    ///
    /// The key of `T` is opaque, so the contract says that one key is set
    /// to the new value and every other key keeps its value, the keys being
    /// kept in order with at most one appended; that the key is `T`'s, so
    /// that [`get`](Deps::get) finds the value again, rests on std's type
    /// identifiers and is not stated.
    pub fn insert<T: Send + Sync + 'static>(self, val: T) -> (r: Deps)
        ensures
            exists|k: TypeId, v: DepValue| #[trigger]
                r.held() == self.held().insert(k, v) && r.keys() == (if self.keys().contains(k) {
                    self.keys()
                } else {
                    self.keys().push(k)
                }),
    {
        proof {
            use_type_invariant(&self);
        }
        let key = type_key::<T>();
        let value = boxed(val);
        let pos = self.position(&key);
        let ghost old_keys = self.keys();
        let ghost old_held = self.held();
        let ghost old_self = self;
        let Deps { mut entries } = self;
        match pos {
            Some(i) => {
                let ghost before = entries@;
                entries.set(i, (key, value));
                proof {
                    assert(before[i as int].0 == old_keys[i as int]);
                    assert forall|a: int, b: int|
                        0 <= a < b < entries@.len() implies entries@[a].0 != entries@[b].0 by {
                        assert(before[a].0 == old_keys[a]);
                        assert(before[b].0 == old_keys[b]);
                    }
                }
                let r = Deps { entries };
                proof {
                    assert(r.keys() =~= old_keys);
                    assert(old_keys.contains(key));
                    assert(r.keys() == (if old_keys.contains(key) {
                        old_keys
                    } else {
                        old_keys.push(key)
                    }));
                    r.lemma_held_at(i as int);
                    assert forall|k: TypeId| #[trigger] r.held().contains_key(k) implies k == key || (
                    old_held.contains_key(k) && r.held()[k] == old_held[k]) by {
                        r.lemma_held_keys(k);
                        let j = choose|j: int| 0 <= j < r.entries@.len() && r.entries@[j].0 == k;
                        r.lemma_held_at(j);
                        if j != i {
                            assert(before[j] == r.entries@[j]);
                            old_self.lemma_held_at(j);
                        }
                    }
                    assert forall|k: TypeId| #[trigger] old_held.contains_key(k) implies r.held().contains_key(k) by {
                        old_self.lemma_held_keys(k);
                        let j = choose|j: int| 0 <= j < before.len() && before[j].0 == k;
                        if j == i {
                            r.lemma_held_at(j);
                        } else {
                            assert(before[j] == r.entries@[j]);
                            r.lemma_held_at(j);
                        }
                    }
                    assert(r.held() =~= old_held.insert(key, value));
                }
                r
            },
            None => {
                let ghost before = entries@;
                entries.push((key, value));
                proof {
                    assert forall|a: int, b: int|
                        0 <= a < b < entries@.len() implies entries@[a].0 != entries@[b].0 by {
                        assert(before[a].0 == old_keys[a]);
                        if b < before.len() {
                            assert(before[b].0 == old_keys[b]);
                        } else {
                            assert(old_keys[a] != key);
                        }
                    }
                }
                let r = Deps { entries };
                proof {
                    assert(r.keys() =~= old_keys.push(key));
                    assert(r.keys() == (if old_keys.contains(key) {
                        old_keys
                    } else {
                        old_keys.push(key)
                    }));
                    let n = before.len() as int;
                    r.lemma_held_at(n);
                    assert forall|k: TypeId| #[trigger] r.held().contains_key(k) implies k == key || (
                    old_held.contains_key(k) && r.held()[k] == old_held[k]) by {
                        r.lemma_held_keys(k);
                        let j = choose|j: int| 0 <= j < r.entries@.len() && r.entries@[j].0 == k;
                        r.lemma_held_at(j);
                        if j != n {
                            assert(before[j] == r.entries@[j]);
                            old_self.lemma_held_at(j);
                        }
                    }
                    assert forall|k: TypeId| #[trigger] old_held.contains_key(k) implies r.held().contains_key(k) by {
                        old_self.lemma_held_keys(k);
                        let j = choose|j: int| 0 <= j < before.len() && before[j].0 == k;
                        assert(before[j] == r.entries@[j]);
                        r.lemma_held_at(j);
                    }
                    assert(r.held() =~= old_held.insert(key, value));
                }
                r
            },
        }
    }

    /// The value of type `T`, or `None` if none was inserted.
    ///
    /// An empty container holds nothing; beyond that, whether a value is
    /// found rests on std's type identifiers and is not stated.
    pub fn get<T: Send + Sync + 'static>(&self) -> (r: Option<&T>)
        ensures
            self.keys().len() == 0 ==> r is None,
    {
        let key = type_key::<T>();
        match self.position(&key) {
            Some(i) => downcast::<T>(&self.entries[i].1),
            None => None,
        }
    }

    /// The value of type `T`, or [`EventBusError::MissingDependency`]
    /// where none was inserted; the error carries the text of `T`'s type
    /// identifier.
    pub fn get_required<T: Send + Sync + 'static>(&self) -> (r: Result<&T, EventBusError>)
        ensures
            self.keys().len() == 0 ==> r is Err,
            r matches Err(e) ==> e is MissingDependency,
    {
        let found = self.get::<T>();
        let key = type_key::<T>();
        required_or_missing(found, key_text(&key))
    }
}

/// The dependency found, or the error naming (`missing`) the type that was
/// looked up in vain.
pub fn required_or_missing<T>(found: Option<&T>, missing: String) -> (r: Result<&T, EventBusError>)
    ensures
        match found {
            Some(v) => r == Ok::<&T, EventBusError>(v),
            None => r matches Err(EventBusError::MissingDependency(n)) && n@ == missing@,
        },
{
    match found {
        Some(v) => Ok(v),
        None => Err(EventBusError::MissingDependency(missing)),
    }
}

impl Default for Deps {
    fn default() -> (r: Deps)
        ensures
            r.keys().len() == 0,
    {
        Deps::new()
    }
}

/// A handler parameter that receives a dependency resolved from [`Deps`].
#[derive(Debug)]
pub struct Dep<T>(pub T);

impl<T> std::ops::Deref for Dep<T> {
    type Target = T;

    fn deref(&self) -> (r: &T)
        ensures
            *r == self.0,
    {
        &self.0
    }
}

} // verus!
