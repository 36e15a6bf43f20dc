//! A store of records, each known by a key of its own. It stands for a map
//! from keys to records and is kept as a list in which no key occurs twice.

use vstd::prelude::*;

verus! {

/// A record that a store can hold.
pub trait Keyed: View + Sized {
    /// The key under which a record is known.
    spec fn key_of(record: Self::V) -> Seq<char>;

    /// What holds of every record that a store holds.
    spec fn sound(&self) -> bool;

    /// The key of the record.
    fn key(&self) -> (key: &String)
        ensures
            key@ == Self::key_of(self@),
    ;

    /// A copy of the record.
    fn duplicate(&self) -> (copy: Self)
        ensures
            copy@ == self@,
            self.sound() ==> copy.sound(),
    ;
}

/// The map that comes of putting the records into an empty map one after
/// the other, each under its key: of two records with one key, the later
/// stays.
pub open spec fn records<T: Keyed>(items: Seq<T::V>) -> Map<Seq<char>, T::V>
    decreases items.len(),
{
    if items.len() == 0 {
        Map::empty()
    } else {
        records::<T>(items.drop_last()).insert(T::key_of(items.last()), items.last())
    }
}

/// Whether no two records of the list have the same key.
pub open spec fn distinct_keys<T: Keyed>(items: Seq<T::V>) -> bool {
    forall|i: int, j: int|
        0 <= i < items.len() && 0 <= j < items.len() && i != j ==> T::key_of(items[i])
            != T::key_of(items[j])
}

/// Whether `items` lists the records of `map`: each record of the map once,
/// and nothing else.
pub open spec fn lists<T: Keyed>(items: Seq<T::V>, map: Map<Seq<char>, T::V>) -> bool {
    &&& distinct_keys::<T>(items)
    &&& forall|i: int|
        0 <= i < items.len() ==> map.contains_key(T::key_of(#[trigger] items[i])) && map[T::key_of(
            items[i],
        )] == items[i]
    &&& forall|k: Seq<char>| #[trigger]
        map.contains_key(k) ==> exists|i: int| 0 <= i < items.len() && T::key_of(#[trigger] items[i]) == k
}

/// The views of a list of records.
pub open spec fn views<T: Keyed>(items: Seq<T>) -> Seq<T::V> {
    Seq::new(items.len(), |i: int| items[i]@)
}

/// A list without a repeated key lists the records of its map.
pub proof fn lemma_records_listed<T: Keyed>(items: Seq<T::V>)
    requires
        distinct_keys::<T>(items),
    ensures
        lists::<T>(items, records::<T>(items)),
    decreases items.len(),
{
    if items.len() > 0 {
        let front = items.drop_last();
        lemma_records_listed::<T>(front);
        let map = records::<T>(items);
        assert forall|i: int| 0 <= i < items.len() implies map.contains_key(
            T::key_of(#[trigger] items[i]),
        ) && map[T::key_of(items[i])] == items[i] by {
            if i < items.len() - 1 {
                assert(front[i] == items[i]);
            }
        }
        assert forall|k: Seq<char>| #[trigger] map.contains_key(k) implies exists|i: int|
            0 <= i < items.len() && T::key_of(#[trigger] items[i]) == k by {
            if k == T::key_of(items.last()) {
                assert(T::key_of(items[items.len() - 1]) == k);
            } else {
                assert(records::<T>(front).contains_key(k));
                let i = choose|i: int| 0 <= i < front.len() && T::key_of(#[trigger] front[i]) == k;
                assert(T::key_of(items[i]) == k);
            }
        }
    }
}

/// Taking one record out of a list without a repeated key takes its key out
/// of the map.
pub proof fn lemma_records_removed<T: Keyed>(items: Seq<T::V>, at: int)
    requires
        distinct_keys::<T>(items),
        0 <= at < items.len(),
    ensures
        distinct_keys::<T>(items.remove(at)),
        records::<T>(items.remove(at)) == records::<T>(items).remove(T::key_of(items[at])),
    decreases items.len(),
{
    let rest = items.remove(at);
    assert forall|i: int, j: int| 0 <= i < rest.len() && 0 <= j < rest.len() && i != j implies T::key_of(
        rest[i],
    ) != T::key_of(rest[j]) by {
        let a = if i < at { i } else { i + 1 };
        let b = if j < at { j } else { j + 1 };
        assert(rest[i] == items[a] && rest[j] == items[b]);
    }
    if at == items.len() - 1 {
        assert(rest =~= items.drop_last());
        lemma_records_listed::<T>(rest);
        assert(!records::<T>(rest).contains_key(T::key_of(items[at]))) by {
            if records::<T>(rest).contains_key(T::key_of(items[at])) {
                let i = choose|i: int| 0 <= i < rest.len() && T::key_of(#[trigger] rest[i]) == T::key_of(items[at]);
                assert(rest[i] == items[i]);
            }
        }
        assert(records::<T>(rest) =~= records::<T>(items).remove(T::key_of(items[at])));
    } else {
        let front = items.drop_last();
        assert(distinct_keys::<T>(front)) by {
            assert forall|i: int, j: int| 0 <= i < front.len() && 0 <= j < front.len() && i != j implies T::key_of(
                front[i],
            ) != T::key_of(front[j]) by {
                assert(front[i] == items[i] && front[j] == items[j]);
            }
        }
        lemma_records_removed::<T>(front, at);
        assert(rest.drop_last() =~= front.remove(at));
        assert(rest.last() == items.last());
        assert(front[at] == items[at]);
        assert(T::key_of(items.last()) != T::key_of(items[at]));
        assert(records::<T>(rest) =~= records::<T>(items).remove(T::key_of(items[at])));
    }
}

/// A store of records.
pub struct Store<T: Keyed> {
    items: Vec<T>,
}

impl<T: Keyed> Store<T> {
    #[verifier::type_invariant]
    spec fn inv(self) -> bool {
        &&& distinct_keys::<T>(views(self.items@))
        &&& forall|i: int| 0 <= i < self.items@.len() ==> (#[trigger] self.items@[i]).sound()
    }

    /// The records in the order in which the store keeps them.
    pub closed spec fn listing(&self) -> Seq<T::V> {
        views(self.items@)
    }

    /// The map from keys to records that the store stands for.
    pub closed spec fn map(&self) -> Map<Seq<char>, T::V> {
        records::<T>(views(self.items@))
    }

    /// The empty store.
    pub fn new() -> (store: Self)
        ensures
            store.map() == Map::<Seq<char>, T::V>::empty(),
            store.listing() == Seq::<T::V>::empty(),
    {
        let items: Vec<T> = Vec::new();
        assert(views(items@) =~= Seq::<T::V>::empty());
        Store { items }
    }

    /// The number of records.
    pub fn len(&self) -> (n: usize)
        ensures
            n == self.listing().len(),
            lists::<T>(self.listing(), self.map()),
    {
        proof {
            use_type_invariant(self);
            lemma_records_listed::<T>(views(self.items@));
        }
        self.items.len()
    }

    /// The record at a place of the listing.
    pub fn at(&self, i: usize) -> (record: &T)
        requires
            i < self.listing().len(),
        ensures
            record@ == self.listing()[i as int],
            record.sound(),
    {
        proof {
            use_type_invariant(self);
        }
        &self.items[i]
    }

    /// Where the record with the key `key` stands.
    fn find(&self, key: &str) -> (at: Option<usize>)
        ensures
            match at {
                Some(i) => i < self.items@.len() && T::key_of(self.items@[i as int]@) == key@,
                None => forall|i: int| 0 <= i < self.items@.len() ==> T::key_of(
                    #[trigger] self.items@[i]@,
                ) != key@,
            },
    {
        let mut i: usize = 0;
        while i < self.items.len()
            invariant
                i <= self.items@.len(),
                forall|j: int| 0 <= j < i ==> T::key_of(#[trigger] self.items@[j]@) != key@,
            decreases self.items@.len() - i,
        {
            if self.items[i].key().as_str().eq(key) {
                return Some(i);
            }
            i += 1;
        }
        None
    }

    /// A copy of the record with the key `key`, where the store has one.
    pub fn get(&self, key: &str) -> (found: Option<T>)
        ensures
            match found {
                Some(record) => self.map().contains_key(key@) && record@ == self.map()[key@]
                    && record.sound() && T::key_of(record@) == key@,
                None => !self.map().contains_key(key@),
            },
    {
        proof {
            use_type_invariant(self);
            lemma_records_listed::<T>(views(self.items@));
        }
        match self.find(key) {
            Some(i) => {
                assert(views(self.items@)[i as int] == self.items@[i as int]@);
                Some(self.items[i].duplicate())
            },
            None => {
                assert(!self.map().contains_key(key@)) by {
                    if self.map().contains_key(key@) {
                        let i = choose|i: int|
                            0 <= i < views(self.items@).len() && T::key_of(
                                #[trigger] views(self.items@)[i],
                            ) == key@;
                        assert(views(self.items@)[i] == self.items@[i]@);
                    }
                }
                None
            },
        }
    }

    /// Whether the store has a record with the key `key`.
    pub fn contains(&self, key: &str) -> (held: bool)
        ensures
            held == self.map().contains_key(key@),
    {
        proof {
            use_type_invariant(self);
            lemma_records_listed::<T>(views(self.items@));
        }
        match self.find(key) {
            Some(i) => {
                assert(views(self.items@)[i as int] == self.items@[i as int]@);
                true
            },
            None => {
                assert(!self.map().contains_key(key@)) by {
                    if self.map().contains_key(key@) {
                        let i = choose|i: int|
                            0 <= i < views(self.items@).len() && T::key_of(
                                #[trigger] views(self.items@)[i],
                            ) == key@;
                        assert(views(self.items@)[i] == self.items@[i]@);
                    }
                }
                false
            },
        }
    }

    /// Takes the record with the key `key` out of the store.
    pub fn remove(&mut self, key: &str)
        ensures
            final(self).map() == old(self).map().remove(key@),
    {
        proof {
            use_type_invariant(&*self);
            lemma_records_listed::<T>(views(self.items@));
        }
        let ghost before = views(self.items@);
        match self.find(key) {
            Some(i) => {
                proof {
                    assert(before[i as int] == self.items@[i as int]@);
                    lemma_records_removed::<T>(before, i as int);
                }
                let mut items: Vec<T> = Vec::new();
                assert(views(items@) =~= Seq::<T::V>::empty());
                core::mem::swap(&mut self.items, &mut items);
                items.remove(i);
                assert(views(items@) =~= before.remove(i as int));
                core::mem::swap(&mut self.items, &mut items);
            },
            None => {
                assert(!records::<T>(before).contains_key(key@)) by {
                    if records::<T>(before).contains_key(key@) {
                        let i = choose|i: int|
                            0 <= i < before.len() && T::key_of(#[trigger] before[i]) == key@;
                        assert(before[i] == self.items@[i]@);
                    }
                }
                assert(records::<T>(before).remove(key@) =~= records::<T>(before));
            },
        }
    }

    /// Puts a record into the store, in place of the one with its key where
    /// there is one.
    pub fn put(&mut self, record: T)
        requires
            record.sound(),
        ensures
            final(self).map() == old(self).map().insert(T::key_of(record@), record@),
    {
        let ghost start = self.map();
        let ghost key = T::key_of(record@);
        let found = self.find(record.key().as_str());
        self.remove(record.key().as_str());
        proof {
            use_type_invariant(&*self);
            lemma_records_listed::<T>(views(self.items@));
        }
        let ghost before = views(self.items@);
        assert(!self.map().contains_key(key));
        assert forall|i: int| 0 <= i < before.len() implies T::key_of(#[trigger] before[i])
            != key by {
            assert(self.map().contains_key(T::key_of(before[i])));
        }
        let mut items: Vec<T> = Vec::new();
        assert(views(items@) =~= Seq::<T::V>::empty());
        core::mem::swap(&mut self.items, &mut items);
        items.push(record);
        assert(views(items@) =~= before.push(record@));
        core::mem::swap(&mut self.items, &mut items);
        proof {
            let after = views(self.items@);
            assert(after =~= before.push(record@));
            assert(after.drop_last() =~= before);
            assert(records::<T>(after) =~= start.insert(key, record@));
        }
    }

    /// Copies of all records.
    pub fn values(&self) -> (all: Vec<T>)
        ensures
            views(all@) == self.listing(),
            lists::<T>(views(all@), self.map()),
            forall|i: int| 0 <= i < all@.len() ==> (#[trigger] all@[i]).sound(),
    {
        proof {
            use_type_invariant(self);
            lemma_records_listed::<T>(views(self.items@));
        }
        let mut all: Vec<T> = Vec::new();
        let mut i: usize = 0;
        while i < self.items.len()
            invariant
                i <= self.items@.len(),
                all@.len() == i,
                forall|j: int| 0 <= j < i ==> (#[trigger] all@[j])@ == self.items@[j]@,
                forall|j: int| 0 <= j < i ==> (#[trigger] all@[j]).sound(),
                forall|j: int| 0 <= j < self.items@.len() ==> (#[trigger] self.items@[j]).sound(),
            decreases self.items@.len() - i,
        {
            all.push(self.items[i].duplicate());
            i += 1;
        }
        assert(views(all@) =~= views(self.items@));
        all
    }
}

} // verus!
