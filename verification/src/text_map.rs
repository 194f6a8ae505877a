//! Maps and sets keyed by text, kept in the order of their keys.
//!
//! The entries lie in one vector, sorted by key without repetition. Keys are ordered
//! character by character, the shorter first where one begins the other.

use crate::text::chars_of;
use vstd::prelude::*;

verus! {

/// `a` and `b` agree before `i`, and there `a` ends or has the smaller character.
pub open spec fn parts_at(a: Seq<char>, b: Seq<char>, i: int) -> bool {
    &&& 0 <= i <= a.len()
    &&& i < b.len()
    &&& forall|j: int| 0 <= j < i ==> #[trigger] a[j] == b[j]
    &&& i == a.len() || a[i] < b[i]
}

/// `a` comes before `b`.
pub open spec fn precedes(a: Seq<char>, b: Seq<char>) -> bool {
    exists|i: int| #[trigger] parts_at(a, b, i)
}

pub proof fn lemma_precedes_transitive(a: Seq<char>, b: Seq<char>, c: Seq<char>)
    requires
        precedes(a, b),
        precedes(b, c),
    ensures
        precedes(a, c),
{
    let i = choose|i: int| parts_at(a, b, i);
    let j = choose|j: int| parts_at(b, c, j);
    let k = if i <= j {
        i
    } else {
        j
    };
    assert forall|l: int| 0 <= l < k implies #[trigger] a[l] == c[l] by {
        assert(a[l] == b[l]);
    }
    assert(parts_at(a, c, k));
}

pub proof fn lemma_precedes_irreflexive(a: Seq<char>)
    ensures
        !precedes(a, a),
{
}

pub proof fn lemma_precedes_asymmetric(a: Seq<char>, b: Seq<char>)
    requires
        precedes(a, b),
    ensures
        !precedes(b, a),
{
    if precedes(b, a) {
        lemma_precedes_transitive(a, b, a);
        lemma_precedes_irreflexive(a);
    }
}

pub proof fn lemma_precedes_total(a: Seq<char>, b: Seq<char>)
    ensures
        a == b || precedes(a, b) || precedes(b, a),
{
    lemma_precedes_total_from(a, b, 0);
}

proof fn lemma_precedes_total_from(a: Seq<char>, b: Seq<char>, i: int)
    requires
        0 <= i <= a.len(),
        i <= b.len(),
        forall|j: int| 0 <= j < i ==> #[trigger] a[j] == b[j],
    ensures
        a == b || precedes(a, b) || precedes(b, a),
    decreases a.len() - i,
{
    if i == a.len() && i == b.len() {
        assert(a =~= b);
    } else if i == a.len() {
        assert(parts_at(a, b, i));
    } else if i == b.len() {
        assert(parts_at(b, a, i));
    } else if a[i] < b[i] {
        assert(parts_at(a, b, i));
    } else if b[i] < a[i] {
        assert(parts_at(b, a, i));
    } else {
        lemma_precedes_total_from(a, b, i + 1);
    }
}

/// How two texts stand to each other.
enum Order {
    Before,
    Same,
    After,
}

fn order(a: &str, b: &str) -> (order: Order)
    ensures
        match order {
            Order::Before => precedes(a@, b@),
            Order::Same => a@ == b@,
            Order::After => precedes(b@, a@),
        },
{
    let left = chars_of(a);
    let right = chars_of(b);
    let mut i: usize = 0;
    while i < left.len() && i < right.len()
        invariant
            i <= left.len(),
            i <= right.len(),
            left@ == a@,
            right@ == b@,
            forall|j: int| 0 <= j < i ==> #[trigger] a@[j] == b@[j],
        decreases left.len() - i,
    {
        if left[i] < right[i] {
            assert(parts_at(a@, b@, i as int));
            return Order::Before;
        }
        if right[i] < left[i] {
            assert(parts_at(b@, a@, i as int));
            return Order::After;
        }
        i = i + 1;
    }
    if i < right.len() {
        assert(parts_at(a@, b@, i as int));
        Order::Before
    } else if i < left.len() {
        assert(parts_at(b@, a@, i as int));
        Order::After
    } else {
        assert(a@ =~= b@);
        Order::Same
    }
}

/// The keys of `entries` go up from one to the next.
pub open spec fn ascending<V>(entries: Seq<(String, V)>) -> bool {
    forall|i: int, j: int|
        0 <= i < j < entries.len() ==> precedes(#[trigger] entries[i].0@, #[trigger] entries[j].0@)
}

/// What `entries` say of each key, a later one winning over an earlier one.
pub open spec fn entries_map<V>(entries: Seq<(String, V)>) -> Map<Seq<char>, V>
    decreases entries.len(),
{
    if entries.len() == 0 {
        Map::empty()
    } else {
        entries_map(entries.drop_last()).insert(entries.last().0@, entries.last().1)
    }
}

/// Some entry has `key`.
pub open spec fn has_key<V>(entries: Seq<(String, V)>, key: Seq<char>) -> bool {
    exists|i: int| 0 <= i < entries.len() && #[trigger] entries[i].0@ == key
}

/// Of entries that go up, the map holds each of them and nothing else.
pub proof fn lemma_ascending_entries<V>(entries: Seq<(String, V)>)
    requires
        ascending(entries),
    ensures
        entries_map(entries).dom().finite(),
        entries_map(entries).len() == entries.len(),
        forall|key: Seq<char>| #[trigger]
            entries_map(entries).contains_key(key) <==> has_key(entries, key),
        forall|i: int|
            0 <= i < entries.len() ==> entries_map(entries).contains_key(#[trigger] entries[i].0@)
                && entries_map(entries)[entries[i].0@] == entries[i].1,
    decreases entries.len(),
{
    if entries.len() > 0 {
        let init = entries.drop_last();
        let last = entries.last();
        assert forall|i: int, j: int| 0 <= i < j < init.len() implies precedes(
            #[trigger] init[i].0@,
            #[trigger] init[j].0@,
        ) by {
            assert(init[i] == entries[i] && init[j] == entries[j]);
        }
        lemma_ascending_entries(init);
        assert forall|key: Seq<char>| #[trigger]
            entries_map(entries).contains_key(key) <==> has_key(entries, key) by {
            if has_key(init, key) {
                let i = choose|i: int| 0 <= i < init.len() && #[trigger] init[i].0@ == key;
                assert(entries[i].0@ == key);
            }
            if has_key(entries, key) {
                let i = choose|i: int| 0 <= i < entries.len() && #[trigger] entries[i].0@ == key;
                if i < init.len() {
                    assert(init[i].0@ == key);
                } else {
                    assert(entries[i] == last);
                }
            }
            if key == last.0@ {
                assert(entries[entries.len() - 1].0@ == key);
            }
        }
        assert forall|i: int| 0 <= i < entries.len() implies entries_map(entries).contains_key(
            #[trigger] entries[i].0@,
        ) && entries_map(entries)[entries[i].0@] == entries[i].1 by {
            if i < init.len() {
                assert(init[i] == entries[i]);
                lemma_precedes_irreflexive(last.0@);
                assert(precedes(entries[i].0@, entries[entries.len() - 1].0@));
            }
        }
        if has_key(init, last.0@) {
            let i = choose|i: int| 0 <= i < init.len() && #[trigger] init[i].0@ == last.0@;
            assert(precedes(entries[i].0@, entries[entries.len() - 1].0@));
            lemma_precedes_irreflexive(last.0@);
        }
        assert(entries_map(entries).dom() =~= entries_map(init).dom().insert(last.0@));
    }
}

/// A map from texts to values of one type.
#[derive(Debug, PartialEq, Eq)]
pub struct TextMap<V> {
    entries: Vec<(String, V)>,
}

impl<V> View for TextMap<V> {
    type V = Map<Seq<char>, V>;

    closed spec fn view(&self) -> Map<Seq<char>, V> {
        entries_map(self.entries@)
    }
}

impl<V> TextMap<V> {
    #[verifier::type_invariant]
    spec fn in_order(self) -> bool {
        ascending(self.entries@)
    }

    /// The empty map.
    pub fn new() -> (map: Self)
        ensures
            map@ == Map::<Seq<char>, V>::empty(),
    {
        TextMap { entries: Vec::new() }
    }

    /// The entries, from the smallest key to the largest.
    pub fn entries(&self) -> (entries: &Vec<(String, V)>)
        ensures
            ascending(entries@),
            entries_map(entries@) == self@,
    {
        proof {
            use_type_invariant(self);
        }
        &self.entries
    }

    pub fn len(&self) -> (count: usize)
        ensures
            self@.dom().finite(),
            count == self@.len(),
    {
        proof {
            use_type_invariant(self);
            lemma_ascending_entries(self.entries@);
        }
        self.entries.len()
    }

    pub fn is_empty(&self) -> (empty: bool)
        ensures
            self@.dom().finite(),
            empty == (self@.len() == 0),
            empty == (self@ == Map::<Seq<char>, V>::empty()),
    {
        proof {
            use_type_invariant(self);
            lemma_ascending_entries(self.entries@);
            if self@.len() == 0 {
                assert(self@ =~= Map::<Seq<char>, V>::empty());
            }
        }
        self.entries.len() == 0
    }

    /// The first place whose key does not come before `key`, and whether it is `key`.
    fn place(&self, key: &str) -> (place: (usize, bool))
        ensures
            place.0 <= self.entries@.len(),
            forall|i: int|
                0 <= i < place.0 ==> precedes(#[trigger] self.entries@[i].0@, key@),
            place.1 ==> place.0 < self.entries@.len() && self.entries@[place.0 as int].0@ == key@,
            !place.1 ==> forall|i: int|
                place.0 <= i < self.entries@.len() ==> precedes(
                    key@,
                    #[trigger] self.entries@[i].0@,
                ),
    {
        proof {
            use_type_invariant(self);
        }
        let mut i: usize = 0;
        while i < self.entries.len()
            invariant
                ascending(self.entries@),
                i <= self.entries@.len(),
                forall|j: int| 0 <= j < i ==> precedes(#[trigger] self.entries@[j].0@, key@),
            decreases self.entries@.len() - i,
        {
            match order(self.entries[i].0.as_str(), key) {
                Order::Before => {},
                Order::Same => {
                    return (i, true);
                },
                Order::After => {
                    proof {
                        assert forall|j: int| i <= j < self.entries@.len() implies precedes(
                            key@,
                            #[trigger] self.entries@[j].0@,
                        ) by {
                            if j > i {
                                lemma_precedes_transitive(
                                    key@,
                                    self.entries@[i as int].0@,
                                    self.entries@[j].0@,
                                );
                            }
                        }
                    }
                    return (i, false);
                },
            }
            i = i + 1;
        }
        (i, false)
    }

    /// A key that has no place is not in the map.
    proof fn lemma_absent(&self, key: Seq<char>, place: int)
        requires
            ascending(self.entries@),
            forall|i: int| 0 <= i < place ==> precedes(#[trigger] self.entries@[i].0@, key),
            forall|i: int|
                place <= i < self.entries@.len() ==> precedes(key, #[trigger] self.entries@[i].0@),
        ensures
            !self@.contains_key(key),
    {
        lemma_ascending_entries(self.entries@);
        lemma_precedes_irreflexive(key);
    }

    pub fn get(&self, key: &str) -> (value: Option<&V>)
        ensures
            value == (if self@.contains_key(key@) {
                Some(&self@[key@])
            } else {
                None::<&V>
            }),
    {
        proof {
            use_type_invariant(self);
            lemma_ascending_entries(self.entries@);
        }
        let (place, found) = self.place(key);
        if found {
            assert(self.entries@[place as int].0@ == key@);
            Some(&self.entries[place].1)
        } else {
            proof {
                self.lemma_absent(key@, place as int);
            }
            None
        }
    }

    pub fn contains_key(&self, key: &str) -> (found: bool)
        ensures
            found == self@.contains_key(key@),
    {
        self.get(key).is_some()
    }

    /// Let `key` lead to `value`, in place of what it led to before.
    pub fn insert(&mut self, key: String, value: V)
        ensures
            final(self)@ == old(self)@.insert(key@, value),
    {
        proof {
            use_type_invariant(&*self);
            lemma_ascending_entries(self.entries@);
        }
        let ghost before = self.entries@;
        let ghost told = self@;
        let (place, found) = self.place(key.as_str());
        proof {
            if !found {
                self.lemma_absent(key@, place as int);
            }
        }
        let mut entries: Vec<(String, V)> = Vec::new();
        std::mem::swap(&mut entries, &mut self.entries);
        let ghost spelled = key@;
        if found {
            entries.set(place, (key, value));
        } else {
            entries.insert(place, (key, value));
        }
        proof {
            lemma_inserted(before, entries@, place as int, found, spelled, value);
        }
        self.entries = entries;
    }

    /// Insert each of `entries` in turn.
    pub fn extend(&mut self, entries: Vec<(String, V)>)
        ensures
            final(self)@ == old(self)@.union_prefer_right(entries_map(entries@)),
    {
        let ghost listed = entries@;
        let ghost held = self@;
        proof {
            assert(held.union_prefer_right(entries_map(Seq::<(String, V)>::empty())) =~= held);
        }
        for entry in it: entries
            invariant
                it.seq() == listed,
                held == old(self)@,
                self@ == held.union_prefer_right(entries_map(listed.take(it.index()))),
        {
            proof {
                let told = listed.take(it.index() + 1);
                assert(told.drop_last() =~= listed.take(it.index()));
                assert(held.union_prefer_right(entries_map(told)) =~= held.union_prefer_right(
                    entries_map(listed.take(it.index())),
                ).insert(entry.0@, entry.1));
            }
            self.insert(entry.0, entry.1);
        }
        assert(listed.take(listed.len() as int) =~= listed);
    }

    /// The map that `entries` spell out, a later one winning over an earlier one.
    pub fn from_entries(entries: Vec<(String, V)>) -> (map: Self)
        ensures
            map@ == entries_map(entries@),
    {
        let mut map = TextMap::new();
        let ghost listed = entries@;
        map.extend(entries);
        assert(Map::<Seq<char>, V>::empty().union_prefer_right(entries_map(listed))
            =~= entries_map(listed));
        map
    }

    /// Forget `key`.
    pub fn remove(&mut self, key: &str)
        ensures
            final(self)@ == old(self)@.remove(key@),
    {
        proof {
            use_type_invariant(&*self);
            lemma_ascending_entries(self.entries@);
        }
        let ghost before = self.entries@;
        let (place, found) = self.place(key);
        if found {
            let mut entries: Vec<(String, V)> = Vec::new();
            std::mem::swap(&mut entries, &mut self.entries);
            entries.remove(place);
            proof {
                lemma_removed(before, entries@, place as int);
            }
            self.entries = entries;
        } else {
            proof {
                self.lemma_absent(key@, place as int);
                assert(self@.remove(key@) =~= self@);
            }
        }
    }
}

/// Setting or inserting an entry at its place keeps the order and inserts into the map.
proof fn lemma_inserted<V>(
    before: Seq<(String, V)>,
    after: Seq<(String, V)>,
    place: int,
    found: bool,
    key: Seq<char>,
    value: V,
)
    requires
        ascending(before),
        0 <= place <= before.len(),
        0 <= place < after.len(),
        after[place].0@ == key,
        after[place].1 == value,
        forall|i: int| 0 <= i < place ==> precedes(#[trigger] before[i].0@, key),
        found ==> place < before.len() && before[place].0@ == key && after == before.update(
            place,
            after[place],
        ),
        !found ==> after == before.insert(place, after[place]) && forall|i: int|
            place <= i < before.len() ==> precedes(key, #[trigger] before[i].0@),
    ensures
        ascending(after),
        entries_map(after) == entries_map(before).insert(key, value),
{
    let shift: int = if found {
        0
    } else {
        1
    };
    assert forall|i: int, j: int| 0 <= i < j < after.len() implies precedes(
        #[trigger] after[i].0@,
        #[trigger] after[j].0@,
    ) by {
        let k = if i < place {
            i
        } else {
            i - shift
        };
        let l = if j < place {
            j
        } else {
            j - shift
        };
        assert(i != place ==> after[i] == before[k]);
        assert(j != place ==> after[j] == before[l]);
        if i == place && found {
            assert(precedes(before[place].0@, before[l].0@));
        }
    }
    lemma_ascending_entries(before);
    lemma_ascending_entries(after);
    let old_map = entries_map(before);
    let new_map = entries_map(after);
    assert forall|k: Seq<char>| #[trigger]
        new_map.contains_key(k) <==> old_map.insert(key, value).contains_key(k) by {
        if new_map.contains_key(k) && k != key {
            let i = choose|i: int| 0 <= i < after.len() && #[trigger] after[i].0@ == k;
            let j = if i < place {
                i
            } else {
                i - shift
            };
            assert(before[j] == after[i]);
            assert(has_key(before, k));
        }
        if old_map.contains_key(k) {
            let i = choose|i: int| 0 <= i < before.len() && #[trigger] before[i].0@ == k;
            let j = if i < place {
                i
            } else {
                i + shift
            };
            assert(after[j].0@ == k);
            assert(has_key(after, k));
        }
        assert(after[place].0@ == key);
    }
    assert forall|k: Seq<char>| new_map.contains_key(k) implies #[trigger] new_map[k]
        == old_map.insert(key, value)[k] by {
        if k == key {
            assert(after[place].0@ == key);
        } else {
            let i = choose|i: int| 0 <= i < after.len() && #[trigger] after[i].0@ == k;
            let j = if i < place {
                i
            } else {
                i - shift
            };
            assert(before[j] == after[i]);
            assert(old_map[before[j].0@] == before[j].1);
        }
    }
    assert(new_map =~= old_map.insert(key, value));
}

/// Taking an entry out keeps the order and removes its key from the map.
proof fn lemma_removed<V>(before: Seq<(String, V)>, after: Seq<(String, V)>, place: int)
    requires
        ascending(before),
        0 <= place < before.len(),
        after == before.remove(place),
    ensures
        ascending(after),
        entries_map(after) == entries_map(before).remove(before[place].0@),
{
    let key = before[place].0@;
    assert forall|i: int, j: int| 0 <= i < j < after.len() implies precedes(
        #[trigger] after[i].0@,
        #[trigger] after[j].0@,
    ) by {
        let k = if i < place {
            i
        } else {
            i + 1
        };
        let l = if j < place {
            j
        } else {
            j + 1
        };
        assert(after[i] == before[k] && after[j] == before[l]);
    }
    lemma_ascending_entries(before);
    lemma_ascending_entries(after);
    lemma_precedes_irreflexive(key);
    let old_map = entries_map(before);
    let new_map = entries_map(after);
    assert forall|k: Seq<char>| #[trigger]
        new_map.contains_key(k) implies old_map.remove(key).contains_key(k) && new_map[k]
        == old_map[k] by {
        let i = choose|i: int| 0 <= i < after.len() && #[trigger] after[i].0@ == k;
        let j = if i < place {
            i
        } else {
            i + 1
        };
        assert(before[j] == after[i]);
        assert(j < place ==> precedes(before[j].0@, before[place].0@));
        assert(place < j ==> precedes(before[place].0@, before[j].0@));
        assert(has_key(before, k));
    }
    assert forall|k: Seq<char>| #[trigger]
        old_map.remove(key).contains_key(k) implies new_map.contains_key(k) by {
        let i = choose|i: int| 0 <= i < before.len() && #[trigger] before[i].0@ == k;
        let j = if i < place {
            i
        } else {
            i - 1
        };
        assert(after[j] == before[i]);
        assert(has_key(after, k));
    }
    assert(new_map =~= old_map.remove(key));
}

impl Clone for TextMap<String> {
    fn clone(&self) -> (copy: Self)
        ensures
            copy@ == self@,
    {
        proof {
            use_type_invariant(self);
        }
        let mut entries: Vec<(String, String)> = Vec::new();
        let mut i: usize = 0;
        while i < self.entries.len()
            invariant
                ascending(self.entries@),
                i <= self.entries@.len(),
                entries@ == self.entries@.take(i as int),
            decreases self.entries@.len() - i,
        {
            entries.push((self.entries[i].0.clone(), self.entries[i].1.clone()));
            assert(entries@ =~= self.entries@.take(i + 1));
            i = i + 1;
        }
        assert(entries@ =~= self.entries@);
        TextMap { entries }
    }
}

/// A set of texts.
#[derive(Debug, PartialEq, Eq)]
pub struct TextSet {
    members: TextMap<()>,
}

impl View for TextSet {
    type V = Set<Seq<char>>;

    closed spec fn view(&self) -> Set<Seq<char>> {
        self.members@.dom()
    }
}

impl TextSet {
    /// The empty set.
    pub fn new() -> (set: Self)
        ensures
            set@ == Set::<Seq<char>>::empty(),
    {
        let members: TextMap<()> = TextMap::new();
        assert(members@.dom() =~= Set::<Seq<char>>::empty());
        TextSet { members }
    }

    pub fn len(&self) -> (count: usize)
        ensures
            self@.finite(),
            count == self@.len(),
    {
        self.members.len()
    }

    pub fn contains(&self, member: &str) -> (found: bool)
        ensures
            found == self@.contains(member@),
    {
        self.members.contains_key(member)
    }

    pub fn insert(&mut self, member: String)
        ensures
            final(self)@ == old(self)@.insert(member@),
    {
        let ghost inserted = self@.insert(member@);
        self.members.insert(member, ());
        assert(self@ =~= inserted);
    }

    pub fn remove(&mut self, member: &str)
        ensures
            final(self)@ == old(self)@.remove(member@),
    {
        let ghost left = self@.remove(member@);
        self.members.remove(member);
        assert(self@ =~= left);
    }

    /// The keys of `map`.
    pub fn keys_of<V>(map: &TextMap<V>) -> (keys: Self)
        ensures
            keys@ == map@.dom(),
    {
        let mut keys = TextSet::new();
        keys.insert_keys(map);
        assert(keys@ =~= map@.dom());
        keys
    }

    /// Insert every key of `map`.
    pub fn insert_keys<V>(&mut self, map: &TextMap<V>)
        ensures
            final(self)@ == old(self)@.union(map@.dom()),
    {
        let entries = map.entries();
        proof {
            lemma_ascending_entries(entries@);
        }
        let ghost held = self@;
        let mut i: usize = 0;
        while i < entries.len()
            invariant
                held == old(self)@,
                i <= entries@.len(),
                forall|key: Seq<char>| #[trigger]
                    self@.contains(key) <==> held.contains(key) || exists|j: int|
                        0 <= j < i && #[trigger] entries@[j].0@ == key,
            decreases entries@.len() - i,
        {
            let ghost before = self@;
            self.insert(entries[i].0.clone());
            proof {
                assert forall|key: Seq<char>| #[trigger]
                    self@.contains(key) <==> held.contains(key) || exists|j: int|
                        0 <= j < i + 1 && #[trigger] entries@[j].0@ == key by {
                    assert(before.contains(key) <==> held.contains(key) || exists|j: int|
                        0 <= j < i && #[trigger] entries@[j].0@ == key);
                    if key == entries@[i as int].0@ {
                        assert(entries@[i as int].0@ == key);
                    }
                }
            }
            i = i + 1;
        }
        proof {
            assert forall|key: Seq<char>| #[trigger] self@.contains(key) <==> held.union(
                map@.dom(),
            ).contains(key) by {
                assert(map@.contains_key(key) <==> has_key(entries@, key));
            }
            assert(self@ =~= held.union(map@.dom()));
        }
    }

    /// The members, from the smallest to the largest.
    pub fn members(&self) -> (members: Vec<String>)
        ensures
            forall|i: int, j: int|
                0 <= i < j < members@.len() ==> precedes(
                    #[trigger] members@[i]@,
                    #[trigger] members@[j]@,
                ),
            forall|member: Seq<char>| #[trigger]
                self@.contains(member) <==> exists|i: int|
                    0 <= i < members@.len() && #[trigger] members@[i]@ == member,
    {
        let entries = self.members.entries();
        proof {
            lemma_ascending_entries(entries@);
        }
        let mut members: Vec<String> = Vec::new();
        let mut i: usize = 0;
        while i < entries.len()
            invariant
                i <= entries@.len(),
                members@.len() == i,
                forall|j: int| 0 <= j < i ==> #[trigger] members@[j] == entries@[j].0,
            decreases entries@.len() - i,
        {
            members.push(entries[i].0.clone());
            i = i + 1;
        }
        proof {
            assert forall|member: Seq<char>| #[trigger]
                self@.contains(member) <==> exists|i: int|
                    0 <= i < members@.len() && #[trigger] members@[i]@ == member by {
                assert(self.members@.contains_key(member) <==> has_key(entries@, member));
                if has_key(entries@, member) {
                    let j = choose|j: int|
                        0 <= j < entries@.len() && #[trigger] entries@[j].0@ == member;
                    assert(members@[j]@ == member);
                }
            }
            assert forall|i: int, j: int| 0 <= i < j < members@.len() implies precedes(
                #[trigger] members@[i]@,
                #[trigger] members@[j]@,
            ) by {
                assert(precedes(entries@[i].0@, entries@[j].0@));
            }
        }
        members
    }
}

impl Clone for TextSet {
    fn clone(&self) -> (copy: Self)
        ensures
            copy@ == self@,
    {
        TextSet::keys_of(&self.members)
    }
}

/// Texts are in the order of a dictionary: a text comes before every longer one that it
/// begins, and where two differ first, the smaller character decides. Of two different texts
/// one comes before the other, and never both.
pub proof fn law_dictionary_order(
    common: Seq<char>,
    x: char,
    y: char,
    a: Seq<char>,
    b: Seq<char>,
)
    ensures
        precedes(common, common.push(x) + a),
        x < y ==> precedes(common.push(x) + a, common.push(y) + b),
        a == b || precedes(a, b) || precedes(b, a),
        !(precedes(a, b) && precedes(b, a)),
        !precedes(a, a),
{
    assert(parts_at(common, common.push(x) + a, common.len() as int));
    if x < y {
        assert(parts_at(common.push(x) + a, common.push(y) + b, common.len() as int));
    }
    lemma_precedes_total(a, b);
    lemma_precedes_irreflexive(a);
    if precedes(a, b) {
        lemma_precedes_asymmetric(a, b);
    }
}

/// The map of some entries holds the keys of all of them and no other, and each key leads
/// to the value of the last entry that has it.
pub proof fn law_last_entry_wins<V>(entries: Seq<(String, V)>, i: int)
    requires
        0 <= i < entries.len(),
        forall|j: int| i < j < entries.len() ==> #[trigger] entries[j].0@ != entries[i].0@,
    ensures
        entries_map(entries).contains_key(entries[i].0@),
        entries_map(entries)[entries[i].0@] == entries[i].1,
        forall|key: Seq<char>| #[trigger]
            entries_map(entries).contains_key(key) ==> exists|j: int|
                0 <= j < entries.len() && #[trigger] entries[j].0@ == key,
        entries_map(Seq::<(String, V)>::empty()) == Map::<Seq<char>, V>::empty(),
    decreases entries.len(),
{
    lemma_entries_have_keys(entries);
    let init = entries.drop_last();
    if i < init.len() {
        assert forall|j: int| i < j < init.len() implies #[trigger] init[j].0@ != init[i].0@ by {
            assert(init[j] == entries[j]);
        }
        law_last_entry_wins(init, i);
        assert(entries[entries.len() - 1].0@ != entries[i].0@);
    }
}

proof fn lemma_entries_have_keys<V>(entries: Seq<(String, V)>)
    ensures
        forall|key: Seq<char>| #[trigger]
            entries_map(entries).contains_key(key) ==> exists|j: int|
                0 <= j < entries.len() && #[trigger] entries[j].0@ == key,
    decreases entries.len(),
{
    if entries.len() > 0 {
        let init = entries.drop_last();
        lemma_entries_have_keys(init);
        assert forall|key: Seq<char>| #[trigger]
            entries_map(entries).contains_key(key) implies exists|j: int|
            0 <= j < entries.len() && #[trigger] entries[j].0@ == key by {
            if key == entries.last().0@ {
                assert(entries[entries.len() - 1].0@ == key);
            } else {
                assert(entries_map(init).contains_key(key));
                let j = choose|j: int| 0 <= j < init.len() && #[trigger] init[j].0@ == key;
                assert(entries[j].0@ == key);
            }
        }
    }
}

} // verus!
