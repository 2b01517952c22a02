//! A store that holds at most one value of each type.

use std::any::Any;
use std::any::TypeId;
use vstd::prelude::*;

verus! {

/// `std::any::TypeId`, the identity of a type, held as it is: identities
/// can be compared and nothing else is known of them.
#[verifier::external_type_specification]
#[verifier::external_body]
pub struct ExTypeId(TypeId);

/// A value whose type is known only at run time.
///
/// Verus cannot hold a `dyn Any` in a field, so the box is opaque to it.
#[verifier::external_body]
pub struct Erased {
    inner: Box<dyn Any + Send + Sync>,
}

/// Calls `TypeId::of`. Nothing is claimed of the result.
#[verifier::external_body]
fn key_of<T: 'static>() -> (k: TypeId) {
    TypeId::of::<T>()
}

/// Compares two type identities with `==`. The claim: they compare equal
/// exactly when they are the same identity.
#[verifier::external_body]
fn same_key(a: &TypeId, b: &TypeId) -> (r: bool)
    ensures
        r == (*a == *b),
{
    a == b
}

/// Boxes a value with `Box::new`. Nothing is claimed of the result.
#[verifier::external_body]
fn erase<T: Send + Sync + 'static>(value: T) -> (e: Erased) {
    Erased { inner: Box::new(value) }
}

/// Takes the value out with `Box::<dyn Any>::downcast`; `None` where it is
/// of another type. Nothing is claimed of the result.
#[verifier::external_body]
fn unerase<T: Send + Sync + 'static>(e: Erased) -> (r: Option<T>) {
    e.inner.downcast::<T>().ok().map(|boxed| *boxed)
}

/// Borrows the value with `<dyn Any>::downcast_ref`; `None` where it is of
/// another type. Nothing is claimed of the result.
#[verifier::external_body]
fn peek<T: Send + Sync + 'static>(e: &Erased) -> (r: Option<&T>) {
    e.inner.downcast_ref::<T>()
}


/// One slot of the store: a type's identity and the value of that type.
pub struct Slot {
    key: TypeId,
    value: Erased,
}

/// The position of `key` among `keys`, if it occurs.
pub open spec fn position(keys: Seq<TypeId>, key: TypeId) -> Option<int> {
    if keys.contains(key) {
        Some(keys.index_of(key))
    } else {
        None
    }
}

/// The store after `stored` was put under `key`: a new slot at the end
/// where the key had none, else the key's slot with the new content.
pub open spec fn put_under(
    keys: Seq<TypeId>,
    values: Seq<Erased>,
    key: TypeId,
    stored: Erased,
) -> (Seq<TypeId>, Seq<Erased>) {
    match position(keys, key) {
        Some(i) => (keys, values.update(i, stored)),
        None => (keys.push(key), values.push(stored)),
    }
}

/// The store after the slot of `key` was removed, if it had one.
pub open spec fn taken_from(keys: Seq<TypeId>, values: Seq<Erased>, key: TypeId) -> (
    Seq<TypeId>,
    Seq<Erased>,
) {
    match position(keys, key) {
        Some(i) => (keys.remove(i), values.remove(i)),
        None => (keys, values),
    }
}

/// What is stored under `key`, if anything.
pub open spec fn stored_under(keys: Seq<TypeId>, values: Seq<Erased>, key: TypeId) -> Option<
    Erased,
> {
    match position(keys, key) {
        Some(i) => Some(values[i]),
        None => None,
    }
}

/// Putting a value under a key replaces what the key had and touches no
/// other key: afterwards the key has the new value, every other key has
/// what it had, and no key occurs twice.
pub proof fn lemma_put_under(
    keys: Seq<TypeId>,
    values: Seq<Erased>,
    key: TypeId,
    stored: Erased,
    other: TypeId,
)
    requires
        keys.no_duplicates(),
        keys.len() == values.len(),
    ensures
        put_under(keys, values, key, stored).0.no_duplicates(),
        put_under(keys, values, key, stored).0.len() == put_under(keys, values, key, stored).1.len(),
        stored_under(
            put_under(keys, values, key, stored).0,
            put_under(keys, values, key, stored).1,
            key,
        ) == Some(stored),
        other != key ==> stored_under(
            put_under(keys, values, key, stored).0,
            put_under(keys, values, key, stored).1,
            other,
        ) == stored_under(keys, values, other),
{
    let after_keys = put_under(keys, values, key, stored).0;
    let after_values = put_under(keys, values, key, stored).1;
    if keys.contains(key) {
        let i = keys.index_of(key);
        assert(after_keys == keys);
        assert(after_values[i] == stored);
        if other != key && keys.contains(other) {
            let j = keys.index_of(other);
            assert(keys[j] == other);
            assert(j != i);
        }
    } else {
        assert forall|a: int, b: int|
            0 <= a < after_keys.len() && 0 <= b < after_keys.len() && a != b implies after_keys[a]
            != after_keys[b] by {
            if a < keys.len() {
                assert(keys.contains(keys[a]));
            }
            if b < keys.len() {
                assert(keys.contains(keys[b]));
            }
        }
        assert(after_keys[keys.len() as int] == key);
        assert(after_keys.contains(key));
        let i = after_keys.index_of(key);
        assert(after_keys[i] == key);
        assert(i == keys.len());
        if other != key {
            if keys.contains(other) {
                let j = keys.index_of(other);
                assert(keys[j] == other);
                assert(after_keys[j] == other);
                assert(after_keys.contains(other));
                let j2 = after_keys.index_of(other);
                assert(after_keys[j2] == other);
                assert(j2 == j);
            } else if after_keys.contains(other) {
                let j2 = after_keys.index_of(other);
                assert(after_keys[j2] == other);
                assert(keys[j2] == other);
            }
        }
    }
}

/// Taking a key away leaves it with nothing and touches no other key.
pub proof fn lemma_taken_from(keys: Seq<TypeId>, values: Seq<Erased>, key: TypeId, other: TypeId)
    requires
        keys.no_duplicates(),
        keys.len() == values.len(),
    ensures
        taken_from(keys, values, key).0.no_duplicates(),
        taken_from(keys, values, key).0.len() == taken_from(keys, values, key).1.len(),
        stored_under(taken_from(keys, values, key).0, taken_from(keys, values, key).1, key)
            is None,
        other != key ==> stored_under(
            taken_from(keys, values, key).0,
            taken_from(keys, values, key).1,
            other,
        ) == stored_under(keys, values, other),
{
    let after_keys = taken_from(keys, values, key).0;
    let after_values = taken_from(keys, values, key).1;
    if keys.contains(key) {
        let i = keys.index_of(key);
        assert(keys[i] == key);
        assert forall|a: int, b: int|
            0 <= a < after_keys.len() && 0 <= b < after_keys.len() && a != b implies after_keys[a]
            != after_keys[b] by {
            let a0 = if a < i { a } else { a + 1 };
            let b0 = if b < i { b } else { b + 1 };
            assert(after_keys[a] == keys[a0]);
            assert(after_keys[b] == keys[b0]);
        }
        if after_keys.contains(key) {
            let a = after_keys.index_of(key);
            assert(after_keys[a] == key);
            let a0 = if a < i { a } else { a + 1 };
            assert(keys[a0] == key);
        }
        if other != key {
            if keys.contains(other) {
                let j = keys.index_of(other);
                assert(keys[j] == other);
                let j1 = if j < i { j } else { j - 1 };
                assert(after_keys[j1] == other);
                assert(after_keys.contains(other));
                let j2 = after_keys.index_of(other);
                assert(after_keys[j2] == other);
                assert(j2 == j1);
            } else if after_keys.contains(other) {
                let j2 = after_keys.index_of(other);
                assert(after_keys[j2] == other);
                let j0 = if j2 < i { j2 } else { j2 + 1 };
                assert(keys[j0] == other);
            }
        }
    }
}

/// All values but at most one are the same before and after.
pub open spec fn all_but_one_kept(before: Seq<Erased>, after: Seq<Erased>) -> bool {
    before.len() == after.len() && forall|a: int, b: int|
        #![trigger after[a], after[b]]
        0 <= a < b < before.len() ==> after[a] == before[a] || after[b] == before[b]
}

/// Stores values of arbitrary types, one per type.
pub struct Extensions {
    slots: Vec<Slot>,
}

/// Borrows the value of slot `i` mutably with `<dyn Any>::downcast_mut`;
/// `None` where it is of another type. The claim: the slots keep their
/// number and their keys, every slot but `i` keeps its value, and nothing
/// changes where no borrow is handed out.
#[verifier::external_body]
fn peek_mut<T: Send + Sync + 'static>(slots: &mut Vec<Slot>, i: usize) -> (r: Option<&mut T>)
    requires
        i < old(slots)@.len(),
    ensures
        final(slots)@.len() == old(slots)@.len(),
        forall|k: int|
            0 <= k < old(slots)@.len() ==> (#[trigger] final(slots)@[k]).key == old(slots)@[k].key,
        forall|k: int|
            0 <= k < old(slots)@.len() && k != i ==> #[trigger] final(slots)@[k] == old(slots)@[k],
        r is None ==> final(slots)@ == old(slots)@,
    no_unwind
{
    slots[i].value.inner.downcast_mut::<T>()
}

/// Calls `Vec::capacity`, the number of elements that the vector can hold
/// without reallocating. The claim: it can hold those that it holds. How
/// much more is the allocator's to choose, and nothing is claimed of it.
#[verifier::external_body]
fn capacity_of(slots: &Vec<Slot>) -> (n: usize)
    ensures
        n >= slots@.len(),
{
    slots.capacity()
}

impl Extensions {
    /// The identities of the types that have a value, in the order in which
    /// they were first inserted.
    pub closed spec fn keys(&self) -> Seq<TypeId> {
        Seq::new(self.slots@.len(), |i: int| self.slots@[i].key)
    }

    /// The stored values, each at the position of its key.
    pub closed spec fn values(&self) -> Seq<Erased> {
        Seq::new(self.slots@.len(), |i: int| self.slots@[i].value)
    }

    #[verifier::type_invariant]
    spec fn no_key_twice(&self) -> bool {
        forall|i: int, j: int|
            0 <= i < j < self.slots@.len() ==> self.slots@[i].key != self.slots@[j].key
    }

    proof fn lemma_keys(&self)
        requires
            self.no_key_twice(),
        ensures
            self.keys().no_duplicates(),
            self.keys().len() == self.slots@.len(),
            self.values().len() == self.slots@.len(),
            forall|i: int|
                0 <= i < self.slots@.len() ==> #[trigger] self.keys()[i] == self.slots@[i].key,
    {
        let keys = self.keys();
        assert forall|i: int, j: int| 0 <= i < keys.len() && 0 <= j < keys.len() && i != j implies keys[i]
            != keys[j] by {
            if i < j {
                assert(self.slots@[i].key != self.slots@[j].key);
            } else {
                assert(self.slots@[j].key != self.slots@[i].key);
            }
        }
    }

    /// An empty store with room for four values.
    pub fn new() -> (e: Extensions)
        ensures
            e.keys() == Seq::<TypeId>::empty(),
            e.values() == Seq::<Erased>::empty(),
    {
        let e = Extensions { slots: Vec::with_capacity(4) };
        assert(e.keys() =~= Seq::<TypeId>::empty());
        assert(e.values() =~= Seq::<Erased>::empty());
        e
    }

    /// An empty store with room for `capacity` values.
    pub fn with_capacity(capacity: usize) -> (e: Extensions)
        ensures
            e.keys() == Seq::<TypeId>::empty(),
            e.values() == Seq::<Erased>::empty(),
    {
        let e = Extensions { slots: Vec::with_capacity(capacity) };
        assert(e.keys() =~= Seq::<TypeId>::empty());
        assert(e.values() =~= Seq::<Erased>::empty());
        e
    }

    /// The number of values that the store has room for without growing:
    /// at least as many as it holds.
    pub fn capacity(&self) -> (n: usize)
        ensures
            n >= self.keys().len(),
    {
        capacity_of(&self.slots)
    }

    /// The position of the slot of `key`, if the key has one. This is what
    /// the store does with the identity of a type once it has been asked
    /// for: every typed operation looks its slot up here.
    pub fn find(&self, key: &TypeId) -> (r: Option<usize>)
        ensures
            r == match position(self.keys(), *key) {
                Some(i) => Some(i as usize),
                None => None,
            },
            r matches Some(i) ==> i < self.keys().len() && self.keys()[i as int] == *key,
            self.keys().no_duplicates(),
            self.keys().len() == self.values().len(),
    {
        proof {
            use_type_invariant(self);
            self.lemma_keys();
        }
        let mut i: usize = 0;
        while i < self.slots.len()
            invariant
                i <= self.slots@.len(),
                self.keys().len() == self.slots@.len(),
                self.keys().no_duplicates(),
                forall|j: int| 0 <= j < i ==> self.keys()[j] != *key,
            decreases self.slots@.len() - i,
        {
            if same_key(&self.slots[i].key, key) {
                proof {
                    let keys = self.keys();
                    assert(keys[i as int] == *key);
                    assert(keys.contains(*key));
                    let at = keys.index_of(*key);
                    assert(keys[at] == *key);
                    assert(at == i);
                }
                return Some(i);
            }
            i = i + 1;
        }
        None
    }

    fn put(&mut self, key: TypeId, value: Erased) -> (previous: Option<Erased>)
        ensures
            final(self).keys().no_duplicates(),
            (final(self).keys(), final(self).values()) == put_under(
                old(self).keys(),
                old(self).values(),
                key,
                value,
            ),
            previous == match position(old(self).keys(), key) {
                Some(i) => Some(old(self).values()[i]),
                None => None,
            },
    {
        let ghost keys = self.keys();
        let ghost values = self.values();
        match self.find(&key) {
            Some(i) => {
                let mut slots: Vec<Slot> = Vec::new();
                std::mem::swap(&mut slots, &mut self.slots);
                let old_slot = slots.remove(i);
                slots.insert(i, Slot { key, value });
                proof {
                    assert forall|a: int, b: int| 0 <= a < b < slots@.len() implies slots@[a].key
                        != slots@[b].key by {
                        assert(slots@[a].key == keys[a]);
                        assert(slots@[b].key == keys[b]);
                    }
                }
                self.slots = slots;
                assert(self.keys() =~= keys);
                assert(self.values() =~= values.update(i as int, value));
                assert(old_slot.value == values[i as int]);
                Some(old_slot.value)
            },
            None => {
                let mut slots: Vec<Slot> = Vec::new();
                std::mem::swap(&mut slots, &mut self.slots);
                slots.push(Slot { key, value });
                proof {
                    assert forall|a: int, b: int| 0 <= a < b < slots@.len() implies slots@[a].key
                        != slots@[b].key by {
                        assert(slots@[a].key == keys[a]);
                        if b < keys.len() {
                            assert(slots@[b].key == keys[b]);
                        } else {
                            assert(keys.contains(keys[a]));
                        }
                    }
                }
                self.slots = slots;
                assert(self.keys() =~= keys.push(key));
                assert(self.values() =~= values.push(value));
                None
            },
        }
    }

    fn take(&mut self, key: &TypeId) -> (previous: Option<Erased>)
        ensures
            final(self).keys().no_duplicates(),
            (final(self).keys(), final(self).values()) == taken_from(
                old(self).keys(),
                old(self).values(),
                *key,
            ),
            previous == match position(old(self).keys(), *key) {
                Some(i) => Some(old(self).values()[i]),
                None => None,
            },
    {
        let ghost keys = self.keys();
        let ghost values = self.values();
        match self.find(key) {
            Some(i) => {
                let mut slots: Vec<Slot> = Vec::new();
                std::mem::swap(&mut slots, &mut self.slots);
                let old_slot = slots.remove(i);
                proof {
                    assert forall|a: int, b: int| 0 <= a < b < slots@.len() implies slots@[a].key
                        != slots@[b].key by {
                        let a0 = if a < i { a } else { a + 1 };
                        let b0 = if b < i { b } else { b + 1 };
                        assert(slots@[a].key == keys[a0]);
                        assert(slots@[b].key == keys[b0]);
                    }
                }
                self.slots = slots;
                assert(self.keys() =~= keys.remove(i as int));
                assert(self.values() =~= values.remove(i as int));
                Some(old_slot.value)
            },
            None => None,
        }
    }

    /// Stores `value` as the one value of its type and hands back the value
    /// that it replaces.
    ///
    /// The store changes in one slot, that of some type identity: a new slot
    /// at the end where that identity had none, else the same slot with a new
    /// content. A value is handed back only where the slot was taken.
    pub fn insert<T: Send + Sync + 'static>(&mut self, value: T) -> (previous: Option<T>)
        ensures
            final(self).keys().no_duplicates(),
            exists|key: TypeId, stored: Erased|
                (final(self).keys(), final(self).values()) == #[trigger] put_under(
                    old(self).keys(),
                    old(self).values(),
                    key,
                    stored,
                ) && (previous is Some ==> old(self).keys().contains(key)),
    {
        let key = key_of::<T>();
        let stored = erase(value);
        let ghost before_keys = self.keys();
        let ghost before_values = self.values();
        let replaced = self.put(key, stored);
        let previous = match replaced {
            Some(boxed) => unerase::<T>(boxed),
            None => None,
        };
        assert((self.keys(), self.values()) == put_under(before_keys, before_values, key, stored)
            && (previous is Some ==> before_keys.contains(key)));
        previous
    }

    /// The value of type `T`, if the store has one.
    pub fn get<T: Send + Sync + 'static>(&self) -> (r: Option<&T>)
        ensures
            r is Some ==> self.keys().len() > 0,
    {
        let key = key_of::<T>();
        match self.find(&key) {
            Some(i) => peek::<T>(&self.slots[i].value),
            None => None,
        }
    }

    /// The value of type `T`, to be changed in place, if the store has one.
    /// The store keeps its keys, and all values but that one: whatever the
    /// caller writes through the borrow, no other slot changes.
    pub fn get_mut<T: Send + Sync + 'static>(&mut self) -> (r: Option<&mut T>)
        ensures
            final(self).keys() == old(self).keys(),
            all_but_one_kept(old(self).values(), final(self).values()),
            r is Some ==> old(self).keys().len() > 0,
            r is None ==> final(self).values() == old(self).values(),
    {
        proof {
            use_type_invariant(&*self);
        }
        let key = key_of::<T>();
        match self.find(&key) {
            Some(i) => peek_mut::<T>(&mut self.slots, i),
            None => None,
        }
    }

    /// Removes the value of type `T` and hands it back.
    ///
    /// At most one slot goes, that of some type identity; the others keep
    /// their order. A value is handed back only where a slot went.
    pub fn remove<T: Send + Sync + 'static>(&mut self) -> (previous: Option<T>)
        ensures
            final(self).keys().no_duplicates(),
            exists|key: TypeId|
                (final(self).keys(), final(self).values()) == #[trigger] taken_from(
                    old(self).keys(),
                    old(self).values(),
                    key,
                ) && (previous is Some ==> old(self).keys().contains(key)),
    {
        let key = key_of::<T>();
        let ghost before_keys = self.keys();
        let ghost before_values = self.values();
        let removed = self.take(&key);
        let previous = match removed {
            Some(boxed) => unerase::<T>(boxed),
            None => None,
        };
        assert((self.keys(), self.values()) == taken_from(before_keys, before_values, key) && (
        previous is Some ==> before_keys.contains(key)));
        previous
    }

    /// Whether the store has a value of type `T`: the answer for some type
    /// identity.
    pub fn contains<T: Send + Sync + 'static>(&self) -> (r: bool)
        ensures
            exists|key: TypeId| r == #[trigger] self.keys().contains(key),
    {
        let key = key_of::<T>();
        let r = self.find(&key).is_some();
        assert(r == self.keys().contains(key));
        r
    }

    /// Removes every value.
    pub fn clear(&mut self)
        ensures
            final(self).keys() == Seq::<TypeId>::empty(),
            final(self).values() == Seq::<Erased>::empty(),
    {
        self.slots = Vec::new();
        assert(self.keys() =~= Seq::<TypeId>::empty());
        assert(self.values() =~= Seq::<Erased>::empty());
    }

    /// The number of stored values.
    pub fn len(&self) -> (n: usize)
        ensures
            n == self.keys().len(),
            n == self.values().len(),
    {
        self.slots.len()
    }

    /// Whether nothing is stored.
    pub fn is_empty(&self) -> (r: bool)
        ensures
            r == (self.keys().len() == 0),
    {
        self.slots.len() == 0
    }
}

impl Default for Extensions {
    fn default() -> (e: Extensions)
        ensures
            e.keys() == Seq::<TypeId>::empty(),
            e.values() == Seq::<Erased>::empty(),
    {
        Extensions::new()
    }
}

} // verus!
