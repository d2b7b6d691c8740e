//! The store: an ordered map from keys to values.

use super::order::{
    ascending, compare_keys, key_bytes, precedes, precedes_irreflexive, precedes_transitive,
    KeyOrder,
};
use crate::decimal::{Decimal, DecimalModel};
use vstd::prelude::*;
use vstd::string::StringExecFns;

verus! {

/// The mathematical value of a [`DBTypes`].
pub enum ValueModel {
    Number(int),
    Float(DecimalModel),
    Boolean(bool),
    Text(Seq<char>),
    List(Seq<ValueModel>),
    Unit,
}

/// A value of the store.
#[derive(Debug, PartialEq, Eq)]
pub enum DBTypes {
    Number(isize),
    Float(Decimal),
    Boolean(bool),
    Text(String),
    List(Vec<DBTypes>),
    Unit(()),
}

impl View for DBTypes {
    type V = ValueModel;

    open spec fn view(&self) -> ValueModel
        decreases self,
    {
        match self {
            DBTypes::Number(n) => ValueModel::Number(*n as int),
            DBTypes::Float(d) => ValueModel::Float(d@),
            DBTypes::Boolean(b) => ValueModel::Boolean(*b),
            DBTypes::Text(t) => ValueModel::Text(t@),
            DBTypes::List(items) => ValueModel::List(
                Seq::new(
                    items.len() as nat,
                    |i: int|
                        if 0 <= i < items.len() {
                            items[i]@
                        } else {
                            ValueModel::Unit
                        },
                ),
            ),
            DBTypes::Unit(_) => ValueModel::Unit,
        }
    }
}

/// The values of a sequence of stored values, one for one.
pub open spec fn values_view(items: Seq<DBTypes>) -> Seq<ValueModel> {
    Seq::new(items.len(), |i: int| items[i]@)
}

/// The value of a list, with its items taken by [`values_view`].
pub proof fn lemma_stored_list_view(items: Vec<DBTypes>)
    ensures
        DBTypes::List(items)@ == ValueModel::List(values_view(items@)),
{
    assert(DBTypes::List(items)@->List_0 =~= values_view(items@));
}

/// A copy of a list of values.
pub fn clone_values(items: &Vec<DBTypes>) -> (r: Vec<DBTypes>)
    ensures
        values_view(r@) == values_view(items@),
    decreases items, 0nat,
{
    let mut out: Vec<DBTypes> = Vec::new();
    let mut i: usize = 0;
    while i < items.len()
        invariant
            i <= items.len(),
            out.len() == i,
            forall|j: int| 0 <= j < i ==> out[j]@ == items[j]@,
        decreases items.len() - i,
    {
        out.push(items[i].clone());
        i += 1;
    }
    assert(values_view(out@) =~= values_view(items@));
    out
}

impl Clone for DBTypes {
    fn clone(&self) -> (r: Self)
        ensures
            r@ == self@,
        decreases self, 1nat,
    {
        match self {
            DBTypes::Number(n) => DBTypes::Number(*n),
            DBTypes::Float(d) => DBTypes::Float(d.clone()),
            DBTypes::Boolean(b) => DBTypes::Boolean(*b),
            DBTypes::Text(t) => DBTypes::Text(t.clone()),
            DBTypes::List(items) => {
                let copied = clone_values(items);
                proof {
                    lemma_stored_list_view(*items);
                    lemma_stored_list_view(copied);
                }
                DBTypes::List(copied)
            },
            DBTypes::Unit(_) => DBTypes::Unit(()),
        }
    }
}

/// What a store holds: a map from keys to values.
pub type Records = Map<Seq<char>, ValueModel>;

/// The value of a stored value that may be absent.
pub open spec fn option_value_view(v: Option<DBTypes>) -> Option<ValueModel> {
    match v {
        Some(v) => Some(v@),
        None => None,
    }
}

/// The value that a store holds at a key, if it holds one.
pub open spec fn stored_at(records: Records, key: Seq<char>) -> Option<ValueModel> {
    if records.contains_key(key) {
        Some(records[key])
    } else {
        None
    }
}

/// The map that a list of entries stands for: each entry is written in turn,
/// so that of two entries with one key the later holds.
pub open spec fn records_map(entries: Seq<(String, DBTypes)>) -> Records
    decreases entries.len(),
{
    if entries.len() == 0 {
        Map::empty()
    } else {
        records_map(entries.drop_last()).insert(entries.last().0@, entries.last().1@)
    }
}

/// The keys of a list of entries, one for one.
pub open spec fn keys_of(entries: Seq<(String, DBTypes)>) -> Seq<Seq<char>> {
    Seq::new(entries.len(), |i: int| entries[i].0@)
}

/// The name of the file that holds the snapshot called `name`.
pub open spec fn snapshot_file(name: Seq<char>) -> Seq<char> {
    name + ".hoya"@
}

/// Writing an entry at the end of a list writes it into the map.
pub proof fn lemma_records_push(entries: Seq<(String, DBTypes)>, entry: (String, DBTypes))
    ensures
        records_map(entries.push(entry)) == records_map(entries).insert(entry.0@, entry.1@),
{
    assert(entries.push(entry).drop_last() =~= entries);
}

/// Every key of the map is the key of an entry.
pub proof fn lemma_records_domain(entries: Seq<(String, DBTypes)>, key: Seq<char>)
    requires
        records_map(entries).contains_key(key),
    ensures
        exists|i: int| 0 <= i < entries.len() && (#[trigger] entries[i]).0@ == key,
    decreases entries.len(),
{
    if entries.last().0@ == key {
        assert(entries[entries.len() - 1].0@ == key);
    } else {
        lemma_records_domain(entries.drop_last(), key);
        let i = choose|i: int|
            0 <= i < entries.drop_last().len() && (#[trigger] entries.drop_last()[i]).0@ == key;
        assert(entries[i].0@ == key);
    }
}

/// In a list in ascending order of keys, no key occurs twice.
pub proof fn lemma_ascending_distinct(entries: Seq<(String, DBTypes)>, i: int, j: int)
    requires
        ascending(keys_of(entries)),
        0 <= i < entries.len(),
        0 <= j < entries.len(),
        i != j,
    ensures
        entries[i].0@ != entries[j].0@,
{
    let keys = keys_of(entries);
    if i < j {
        assert(precedes(key_bytes(keys[i]), key_bytes(keys[j])));
    } else {
        assert(precedes(key_bytes(keys[j]), key_bytes(keys[i])));
    }
    precedes_irreflexive(key_bytes(entries[i].0@));
}

/// In a list in ascending order of keys, the map holds each entry.
pub proof fn lemma_records_entry(entries: Seq<(String, DBTypes)>, i: int)
    requires
        ascending(keys_of(entries)),
        0 <= i < entries.len(),
    ensures
        records_map(entries).contains_key(entries[i].0@),
        records_map(entries)[entries[i].0@] == entries[i].1@,
    decreases entries.len(),
{
    if i < entries.len() - 1 {
        lemma_ascending_shorter(entries);
        lemma_records_entry(entries.drop_last(), i);
        lemma_ascending_distinct(entries, i, entries.len() - 1);
    }
}


/// A list in ascending order of keys is still so without its last entry.
proof fn lemma_ascending_shorter(entries: Seq<(String, DBTypes)>)
    requires
        ascending(keys_of(entries)),
        entries.len() > 0,
    ensures
        ascending(keys_of(entries.drop_last())),
{
    let shorter = entries.drop_last();
    assert forall|a: int, b: int| 0 <= a < b < shorter.len() implies precedes(
        key_bytes(#[trigger] keys_of(shorter)[a]),
        key_bytes(#[trigger] keys_of(shorter)[b]),
    ) by {
        assert(keys_of(shorter)[a] == keys_of(entries)[a]);
        assert(keys_of(shorter)[b] == keys_of(entries)[b]);
    }
}

/// A key that no entry has is not in the map.
pub proof fn lemma_records_missing(entries: Seq<(String, DBTypes)>, key: Seq<char>)
    requires
        forall|i: int| 0 <= i < entries.len() ==> (#[trigger] entries[i]).0@ != key,
    ensures
        !records_map(entries).contains_key(key),
{
    if records_map(entries).contains_key(key) {
        lemma_records_domain(entries, key);
    }
}

/// Two lists in ascending order that hold the same entries, up to the
/// places `from` and `to` at which the second list has one entry more or
/// less, or another value, stand for maps that agree on every key but `key`.
proof fn lemma_records_agree(
    before: Seq<(String, DBTypes)>,
    after: Seq<(String, DBTypes)>,
    key: Seq<char>,
)
    requires
        ascending(keys_of(before)),
        ascending(keys_of(after)),
        forall|i: int|
            0 <= i < before.len() && (#[trigger] before[i]).0@ != key ==> exists|j: int|
                0 <= j < after.len() && (#[trigger] after[j]).0@ == before[i].0@ && after[j].1@
                    == before[i].1@,
        forall|j: int|
            0 <= j < after.len() && (#[trigger] after[j]).0@ != key ==> exists|i: int|
                0 <= i < before.len() && (#[trigger] before[i]).0@ == after[j].0@ && before[i].1@
                    == after[j].1@,
    ensures
        forall|k: Seq<char>|
            k != key && #[trigger] records_map(before).contains_key(k) ==> records_map(
                after,
            ).contains_key(k) && records_map(before)[k] == records_map(after)[k],
        forall|k: Seq<char>|
            k != key && #[trigger] records_map(after).contains_key(k) ==> records_map(
                before,
            ).contains_key(k),
{
    assert forall|k: Seq<char>| k != key && #[trigger] records_map(before).contains_key(
        k,
    ) implies records_map(after).contains_key(k) && records_map(before)[k] == records_map(after)[k] by {
        lemma_records_domain(before, k);
        let i = choose|i: int| 0 <= i < before.len() && (#[trigger] before[i]).0@ == k;
        lemma_records_entry(before, i);
        let j = choose|j: int|
            0 <= j < after.len() && (#[trigger] after[j]).0@ == before[i].0@ && after[j].1@
                == before[i].1@;
        lemma_records_entry(after, j);
    }
    assert forall|k: Seq<char>| k != key && #[trigger] records_map(after).contains_key(
        k,
    ) implies records_map(before).contains_key(k) by {
        lemma_records_domain(after, k);
        let j = choose|j: int| 0 <= j < after.len() && (#[trigger] after[j]).0@ == k;
        let i = choose|i: int|
            0 <= i < before.len() && (#[trigger] before[i]).0@ == after[j].0@ && before[i].1@
                == after[j].1@;
        lemma_records_entry(before, i);
    }
}

/// Putting a new entry at its place in a list in ascending order keeps the
/// order and writes the entry into the map.
proof fn lemma_insert_entry(entries: Seq<(String, DBTypes)>, at: int, entry: (String, DBTypes))
    requires
        ascending(keys_of(entries)),
        0 <= at <= entries.len(),
        forall|j: int|
            0 <= j < at ==> precedes(key_bytes((#[trigger] entries[j]).0@), key_bytes(entry.0@)),
        forall|j: int|
            at <= j < entries.len() ==> precedes(
                key_bytes(entry.0@),
                key_bytes((#[trigger] entries[j]).0@),
            ),
    ensures
        ascending(keys_of(entries.insert(at, entry))),
        records_map(entries.insert(at, entry)) == records_map(entries).insert(entry.0@, entry.1@),
{
    let after = entries.insert(at, entry);
    assert forall|a: int, b: int| 0 <= a < b < after.len() implies precedes(
        key_bytes(#[trigger] keys_of(after)[a]),
        key_bytes(#[trigger] keys_of(after)[b]),
    ) by {
        let x = if a < at {
            a
        } else {
            a - 1
        };
        let y = if b < at {
            b
        } else {
            b - 1
        };
        if a != at && b != at {
            assert(after[a] == entries[x] && after[b] == entries[y]);
            assert(precedes(key_bytes(keys_of(entries)[x]), key_bytes(keys_of(entries)[y])));
        } else if a == at {
            assert(after[b] == entries[y]);
        } else {
            assert(after[a] == entries[x]);
        }
    }
    assert forall|i: int| 0 <= i < entries.len() && (#[trigger] entries[i]).0@ != entry.0@ implies
        exists|j: int|
        0 <= j < after.len() && (#[trigger] after[j]).0@ == entries[i].0@ && after[j].1@
            == entries[i].1@ by {
        let j = if i < at {
            i
        } else {
            i + 1
        };
        assert(after[j] == entries[i]);
    }
    assert forall|j: int| 0 <= j < after.len() && (#[trigger] after[j]).0@ != entry.0@ implies
        exists|i: int|
        0 <= i < entries.len() && (#[trigger] entries[i]).0@ == after[j].0@ && entries[i].1@
            == after[j].1@ by {
        let i = if j < at {
            j
        } else {
            j - 1
        };
        assert(after[j] == entries[i]);
    }
    lemma_records_agree(entries, after, entry.0@);
    lemma_records_entry(after, at);
    assert(records_map(after) =~= records_map(entries).insert(entry.0@, entry.1@));
}

/// Giving the entry of a key another value keeps the order and writes the
/// value into the map.
proof fn lemma_replace_entry(entries: Seq<(String, DBTypes)>, at: int, entry: (String, DBTypes))
    requires
        ascending(keys_of(entries)),
        0 <= at < entries.len(),
        entries[at].0@ == entry.0@,
    ensures
        ascending(keys_of(entries.update(at, entry))),
        records_map(entries.update(at, entry)) == records_map(entries).insert(entry.0@, entry.1@),
{
    let after = entries.update(at, entry);
    assert(keys_of(after) =~= keys_of(entries));
    assert forall|i: int| 0 <= i < entries.len() && (#[trigger] entries[i]).0@ != entry.0@ implies
        exists|j: int|
        0 <= j < after.len() && (#[trigger] after[j]).0@ == entries[i].0@ && after[j].1@
            == entries[i].1@ by {
        assert(after[i] == entries[i]);
    }
    assert forall|j: int| 0 <= j < after.len() && (#[trigger] after[j]).0@ != entry.0@ implies
        exists|i: int|
        0 <= i < entries.len() && (#[trigger] entries[i]).0@ == after[j].0@ && entries[i].1@
            == after[j].1@ by {
        assert(after[j] == entries[j]);
    }
    lemma_records_agree(entries, after, entry.0@);
    lemma_records_entry(after, at);
    assert(records_map(after) =~= records_map(entries).insert(entry.0@, entry.1@));
}

/// Taking an entry out of a list in ascending order keeps the order and
/// takes its key out of the map.
proof fn lemma_remove_entry(entries: Seq<(String, DBTypes)>, at: int)
    requires
        ascending(keys_of(entries)),
        0 <= at < entries.len(),
    ensures
        ascending(keys_of(entries.remove(at))),
        records_map(entries.remove(at)) == records_map(entries).remove(entries[at].0@),
{
    let after = entries.remove(at);
    let key = entries[at].0@;
    assert forall|a: int, b: int| 0 <= a < b < after.len() implies precedes(
        key_bytes(#[trigger] keys_of(after)[a]),
        key_bytes(#[trigger] keys_of(after)[b]),
    ) by {
        let x = if a < at {
            a
        } else {
            a + 1
        };
        let y = if b < at {
            b
        } else {
            b + 1
        };
        assert(after[a] == entries[x] && after[b] == entries[y]);
        assert(precedes(key_bytes(keys_of(entries)[x]), key_bytes(keys_of(entries)[y])));
    }
    assert forall|i: int| 0 <= i < entries.len() && (#[trigger] entries[i]).0@ != key implies
        exists|j: int|
        0 <= j < after.len() && (#[trigger] after[j]).0@ == entries[i].0@ && after[j].1@
            == entries[i].1@ by {
        let j = if i < at {
            i
        } else {
            i - 1
        };
        assert(after[j] == entries[i]);
    }
    assert forall|j: int| 0 <= j < after.len() && (#[trigger] after[j]).0@ != key implies exists|
        i: int,
    |
        0 <= i < entries.len() && (#[trigger] entries[i]).0@ == after[j].0@ && entries[i].1@
            == after[j].1@ by {
        let i = if j < at {
            j
        } else {
            j + 1
        };
        assert(after[j] == entries[i]);
    }
    lemma_records_agree(entries, after, key);
    assert forall|j: int| 0 <= j < after.len() implies (#[trigger] after[j]).0@ != key by {
        let i = if j < at {
            j
        } else {
            j + 1
        };
        assert(after[j] == entries[i]);
        lemma_ascending_distinct(entries, i, at);
    }
    lemma_records_missing(after, key);
    assert(records_map(after) =~= records_map(entries).remove(key));
}

/// Where `key` stands in a list in ascending order: whether an entry holds
/// it, and the index of that entry or else of the place where it belongs.
fn search(records: &Vec<(String, DBTypes)>, key: &str) -> (r: (bool, usize))
    requires
        ascending(keys_of(records@)),
    ensures
        r.1 <= records.len(),
        r.0 ==> r.1 < records.len() && records[r.1 as int].0@ == key@,
        !r.0 ==> forall|j: int|
            0 <= j < r.1 ==> precedes(key_bytes((#[trigger] records[j]).0@), key_bytes(key@)),
        !r.0 ==> forall|j: int|
            r.1 <= j < records.len() ==> precedes(
                key_bytes(key@),
                key_bytes((#[trigger] records[j]).0@),
            ),
{
    let mut lo: usize = 0;
    let mut hi: usize = records.len();
    while lo < hi
        invariant
            lo <= hi <= records.len(),
            ascending(keys_of(records@)),
            forall|j: int|
                0 <= j < lo ==> precedes(key_bytes((#[trigger] records[j]).0@), key_bytes(key@)),
            forall|j: int|
                hi <= j < records.len() ==> precedes(
                    key_bytes(key@),
                    key_bytes((#[trigger] records[j]).0@),
                ),
        decreases hi - lo,
    {
        let mid = lo + (hi - lo) / 2;
        match compare_keys(records[mid].0.as_str(), key) {
            KeyOrder::Same => {
                return (true, mid);
            },
            KeyOrder::Before => {
                assert forall|j: int| 0 <= j < mid + 1 implies precedes(
                    key_bytes((#[trigger] records[j]).0@),
                    key_bytes(key@),
                ) by {
                    if j < mid {
                        assert(precedes(
                            key_bytes(keys_of(records@)[j]),
                            key_bytes(keys_of(records@)[mid as int]),
                        ));
                        precedes_transitive(
                            key_bytes(records[j].0@),
                            key_bytes(records[mid as int].0@),
                            key_bytes(key@),
                        );
                    }
                }
                lo = mid + 1;
            },
            KeyOrder::After => {
                assert forall|j: int| mid <= j < records.len() implies precedes(
                    key_bytes(key@),
                    key_bytes((#[trigger] records[j]).0@),
                ) by {
                    if mid < j {
                        assert(precedes(
                            key_bytes(keys_of(records@)[mid as int]),
                            key_bytes(keys_of(records@)[j]),
                        ));
                        precedes_transitive(
                            key_bytes(key@),
                            key_bytes(records[mid as int].0@),
                            key_bytes(records[j].0@),
                        );
                    }
                }
                hi = mid;
            },
        }
    }
    (false, lo)
}

/// A snapshot of a store: the file that is to hold it, and the entries in
/// ascending order of their keys.
#[derive(Debug)]
pub struct Snapshot {
    pub file: String,
    pub records: Vec<(String, DBTypes)>,
}

/// An ordered map from keys to values. A key holds the value that was last
/// written to it.
pub struct Database {
    records: Vec<(String, DBTypes)>,
}

impl View for Database {
    type V = Records;

    closed spec fn view(&self) -> Records {
        records_map(self.records@)
    }
}

impl Database {
    #[verifier::type_invariant]
    spec fn ordered(self) -> bool {
        ascending(keys_of(self.records@))
    }

    /// A store that holds nothing.
    pub fn new() -> (r: Database)
        ensures
            r@ == Map::<Seq<char>, ValueModel>::empty(),
    {
        Database { records: Vec::new() }
    }

    /// The value at `key`, if the store holds one.
    pub fn get(&self, key: &str) -> (r: Option<DBTypes>)
        ensures
            option_value_view(r) == stored_at(self@, key@),
    {
        proof {
            use_type_invariant(self);
        }
        let (found, at) = search(&self.records, key);
        if found {
            proof {
                lemma_records_entry(self.records@, at as int);
            }
            Some(self.records[at].1.clone())
        } else {
            proof {
                lemma_absent(self.records@, at as int, key@);
            }
            None
        }
    }

    /// Whether the store holds a value at `key`.
    pub fn key_exists(&self, key: &str) -> (r: bool)
        ensures
            r == self@.contains_key(key@),
    {
        proof {
            use_type_invariant(self);
        }
        let (found, at) = search(&self.records, key);
        proof {
            if found {
                lemma_records_entry(self.records@, at as int);
            } else {
                lemma_absent(self.records@, at as int, key@);
            }
        }
        found
    }

    /// Writes `value` at `key`, over what the key held, and returns what it
    /// held.
    pub fn put(&mut self, key: String, value: DBTypes) -> (r: Option<DBTypes>)
        ensures
            final(self)@ == old(self)@.insert(key@, value@),
            option_value_view(r) == stored_at(old(self)@, key@),
    {
        proof {
            use_type_invariant(&*self);
        }
        let mut records: Vec<(String, DBTypes)> = Vec::new();
        core::mem::swap(&mut self.records, &mut records);
        let ghost before = records@;
        let (found, at) = search(&records, key.as_str());
        let previous = if found {
            proof {
                lemma_records_entry(before, at as int);
                lemma_remove_entry(before, at as int);
                lemma_replace_entry(before, at as int, (key, value));
            }
            let old_entry = records.remove(at);
            records.insert(at, (key, value));
            assert(records@ =~= before.update(at as int, (key, value)));
            Some(old_entry.1)
        } else {
            proof {
                lemma_absent(before, at as int, key@);
                lemma_insert_entry(before, at as int, (key, value));
            }
            records.insert(at, (key, value));
            None
        };
        core::mem::swap(&mut self.records, &mut records);
        previous
    }

    /// Takes `key` out of the store and returns what it held.
    pub fn remove(&mut self, key: &str) -> (r: Option<DBTypes>)
        ensures
            final(self)@ == old(self)@.remove(key@),
            option_value_view(r) == stored_at(old(self)@, key@),
    {
        proof {
            use_type_invariant(&*self);
        }
        let mut records: Vec<(String, DBTypes)> = Vec::new();
        core::mem::swap(&mut self.records, &mut records);
        let ghost before = records@;
        let (found, at) = search(&records, key);
        let previous = if found {
            proof {
                lemma_records_entry(before, at as int);
                lemma_remove_entry(before, at as int);
            }
            let old_entry = records.remove(at);
            Some(old_entry.1)
        } else {
            proof {
                lemma_absent(before, at as int, key@);
                assert(records_map(before).remove(key@) =~= records_map(before));
            }
            None
        };
        core::mem::swap(&mut self.records, &mut records);
        previous
    }
}

impl Database {
    /// The snapshot of the store under the name `filename`: the file that is
    /// to hold it, and every entry of the store, in ascending order of the
    /// keys.
    pub fn store(&self, filename: &str) -> (r: Snapshot)
        ensures
            r.file@ == snapshot_file(filename@),
            records_map(r.records@) == self@,
            ascending(keys_of(r.records@)),
    {
        proof {
            use_type_invariant(self);
        }
        let mut file = filename.to_owned();
        file.append(".hoya");
        let mut records: Vec<(String, DBTypes)> = Vec::new();
        let mut i: usize = 0;
        while i < self.records.len()
            invariant
                i <= self.records.len(),
                records.len() == i,
                forall|j: int|
                    0 <= j < i ==> (#[trigger] records[j]).0@ == self.records[j].0@ && records[j].1@
                        == self.records[j].1@,
            decreases self.records.len() - i,
        {
            records.push((self.records[i].0.clone(), self.records[i].1.clone()));
            i += 1;
        }
        proof {
            lemma_records_same(records@, self.records@);
            assert(keys_of(records@) =~= keys_of(self.records@));
        }
        Snapshot { file, records }
    }

    /// Replaces what the store holds by the entries of a snapshot, written
    /// in their order.
    pub fn load(&mut self, records: &Vec<(String, DBTypes)>)
        ensures
            final(self)@ == records_map(records@),
    {
        let mut loaded = Database::new();
        let mut i: usize = 0;
        while i < records.len()
            invariant
                i <= records.len(),
                loaded@ == records_map(records@.take(i as int)),
            decreases records.len() - i,
        {
            let key = records[i].0.clone();
            let value = records[i].1.clone();
            proof {
                lemma_records_push(records@.take(i as int), (key, value));
                lemma_records_same(
                    records@.take(i as int).push((key, value)),
                    records@.take(i + 1),
                );
            }
            loaded.put(key, value);
            i += 1;
        }
        assert(records@.take(records.len() as int) =~= records@);
        *self = loaded;
    }
}

/// Lists whose entries have the same keys and values, one for one, stand for
/// the same map.
pub proof fn lemma_records_same(a: Seq<(String, DBTypes)>, b: Seq<(String, DBTypes)>)
    requires
        a.len() == b.len(),
        forall|i: int|
            0 <= i < a.len() ==> (#[trigger] a[i]).0@ == b[i].0@ && a[i].1@ == b[i].1@,
    ensures
        records_map(a) == records_map(b),
    decreases a.len(),
{
    if a.len() > 0 {
        assert(a.last().0@ == b.last().0@ && a.last().1@ == b.last().1@) by {
            assert(a[a.len() - 1].0@ == b[a.len() - 1].0@);
        }
        assert forall|i: int| 0 <= i < a.drop_last().len() implies (#[trigger] a.drop_last()[i]).0@
            == b.drop_last()[i].0@ && a.drop_last()[i].1@ == b.drop_last()[i].1@ by {
            assert(a[i].0@ == b[i].0@);
        }
        lemma_records_same(a.drop_last(), b.drop_last());
    }
}

/// A key that stands between the entries of a list in ascending order is not
/// in the map.
proof fn lemma_absent(entries: Seq<(String, DBTypes)>, at: int, key: Seq<char>)
    requires
        0 <= at <= entries.len(),
        forall|j: int|
            0 <= j < at ==> precedes(key_bytes((#[trigger] entries[j]).0@), key_bytes(key)),
        forall|j: int|
            at <= j < entries.len() ==> precedes(
                key_bytes(key),
                key_bytes((#[trigger] entries[j]).0@),
            ),
    ensures
        !records_map(entries).contains_key(key),
{
    assert forall|i: int| 0 <= i < entries.len() implies (#[trigger] entries[i]).0@ != key by {
        precedes_irreflexive(key_bytes(key));
    }
    lemma_records_missing(entries, key);
}

impl Default for Database {
    fn default() -> (r: Self)
        ensures
            r@ == Map::<Seq<char>, ValueModel>::empty(),
    {
        Database::new()
    }
}


/// A write to the store, or the removal of a key.
pub enum Operation {
    Put(Seq<char>, ValueModel),
    Remove(Seq<char>),
}

/// What a store holds after a sequence of operations, made in their order.
pub open spec fn applied(records: Records, operations: Seq<Operation>) -> Records
    decreases operations.len(),
{
    if operations.len() == 0 {
        records
    } else {
        let earlier = applied(records, operations.drop_last());
        match operations.last() {
            Operation::Put(key, value) => earlier.insert(key, value),
            Operation::Remove(key) => earlier.remove(key),
        }
    }
}

/// What an empty store holds after a sequence of writes, made in their
/// order.
pub open spec fn written(writes: Seq<(Seq<char>, ValueModel)>) -> Records
    decreases writes.len(),
{
    if writes.len() == 0 {
        Map::empty()
    } else {
        written(writes.drop_last()).insert(writes.last().0, writes.last().1)
    }
}

/// No key is written twice.
pub open spec fn distinct_keys(writes: Seq<(Seq<char>, ValueModel)>) -> bool {
    forall|i: int, j: int|
        0 <= i < j < writes.len() ==> (#[trigger] writes[i]).0 != (#[trigger] writes[j]).0
}

/// A value that is written to a key is the value that a read of the key
/// gives, whatever the store held.
pub proof fn put_then_get(records: Records, key: Seq<char>, value: ValueModel)
    ensures
        stored_at(records.insert(key, value), key) == Some(value),
{
}

/// A key is in the store right after a write to it, and is not after its
/// removal; an empty store holds no key.
pub proof fn existence_toggles(records: Records, key: Seq<char>, value: ValueModel)
    ensures
        !Map::<Seq<char>, ValueModel>::empty().contains_key(key),
        records.insert(key, value).contains_key(key),
        !records.remove(key).contains_key(key),
{
}

/// A write to one key, or its removal, changes nothing at another key.
pub proof fn other_keys_untouched(
    records: Records,
    key: Seq<char>,
    value: ValueModel,
    other: Seq<char>,
)
    requires
        other != key,
    ensures
        stored_at(records.insert(key, value), other) == stored_at(records, other),
        stored_at(records.remove(key), other) == stored_at(records, other),
{
}

/// A key to which no operation has written is not in a store that began
/// empty.
pub proof fn absent_before_any_put(operations: Seq<Operation>, key: Seq<char>)
    requires
        forall|i: int|
            0 <= i < operations.len() ==> !((#[trigger] operations[i]) matches Operation::Put(k, _)
                && k == key),
    ensures
        !applied(Map::empty(), operations).contains_key(key),
    decreases operations.len(),
{
    if operations.len() > 0 {
        assert forall|i: int| 0 <= i < operations.drop_last().len() implies !((
        #[trigger] operations.drop_last()[i]) matches Operation::Put(k, _) && k == key) by {
            assert(operations.drop_last()[i] == operations[i]);
        }
        absent_before_any_put(operations.drop_last(), key);
        assert(operations.last() == operations[operations.len() - 1]);
    }
}

/// After writes to keys that all differ, a store that began empty holds
/// exactly the written entries: as many keys as there were writes, and at
/// each key the value written to it.
pub proof fn distinct_writes_all_kept(writes: Seq<(Seq<char>, ValueModel)>)
    requires
        distinct_keys(writes),
    ensures
        written(writes).dom().finite(),
        written(writes).dom().len() == writes.len(),
        forall|i: int|
            0 <= i < writes.len() ==> written(writes).contains_key((#[trigger] writes[i]).0)
                && written(writes)[writes[i].0] == writes[i].1,
        forall|k: Seq<char>| #[trigger]
            written(writes).contains_key(k) ==> exists|i: int|
                0 <= i < writes.len() && (#[trigger] writes[i]).0 == k,
    decreases writes.len(),
{
    if writes.len() > 0 {
        let earlier = writes.drop_last();
        let last = writes.last();
        assert(distinct_keys(earlier)) by {
            assert forall|i: int, j: int| 0 <= i < j < earlier.len() implies (
            #[trigger] earlier[i]).0 != (#[trigger] earlier[j]).0 by {
                assert(earlier[i] == writes[i] && earlier[j] == writes[j]);
            }
        }
        distinct_writes_all_kept(earlier);
        assert(!written(earlier).contains_key(last.0)) by {
            if written(earlier).contains_key(last.0) {
                let i = choose|i: int| 0 <= i < earlier.len() && (#[trigger] earlier[i]).0 == last.0;
                assert(earlier[i] == writes[i]);
                assert(writes[writes.len() - 1] == last);
            }
        }
        assert forall|i: int| 0 <= i < writes.len() implies written(writes).contains_key(
            (#[trigger] writes[i]).0,
        ) && written(writes)[writes[i].0] == writes[i].1 by {
            if i < writes.len() - 1 {
                assert(earlier[i] == writes[i]);
            }
        }
        assert forall|k: Seq<char>| #[trigger] written(writes).contains_key(k) implies exists|
            i: int,
        |
            0 <= i < writes.len() && (#[trigger] writes[i]).0 == k by {
            if k == last.0 {
                assert(writes[writes.len() - 1].0 == k);
            } else {
                let i = choose|i: int| 0 <= i < earlier.len() && (#[trigger] earlier[i]).0 == k;
                assert(writes[i].0 == k);
            }
        }
    }
}

/// Writes to keys that all differ leave the same store in whatever order
/// they are made.
pub proof fn distinct_writes_in_any_order(
    first: Seq<(Seq<char>, ValueModel)>,
    second: Seq<(Seq<char>, ValueModel)>,
)
    requires
        distinct_keys(first),
        distinct_keys(second),
        forall|i: int|
            0 <= i < first.len() ==> exists|j: int|
                0 <= j < second.len() && #[trigger] second[j] == #[trigger] first[i],
        forall|j: int|
            0 <= j < second.len() ==> exists|i: int|
                0 <= i < first.len() && #[trigger] first[i] == #[trigger] second[j],
    ensures
        written(first) == written(second),
{
    distinct_writes_all_kept(first);
    distinct_writes_all_kept(second);
    assert forall|k: Seq<char>| #[trigger] written(first).contains_key(k) implies written(
        second,
    ).contains_key(k) && written(second)[k] == written(first)[k] by {
        let i = choose|i: int| 0 <= i < first.len() && (#[trigger] first[i]).0 == k;
        let j = choose|j: int| 0 <= j < second.len() && #[trigger] second[j] == #[trigger] first[i];
        assert(written(second).contains_key(second[j].0));
    }
    assert forall|k: Seq<char>| #[trigger] written(second).contains_key(k) implies written(
        first,
    ).contains_key(k) by {
        let j = choose|j: int| 0 <= j < second.len() && (#[trigger] second[j]).0 == k;
        let i = choose|i: int| 0 <= i < first.len() && #[trigger] first[i] == #[trigger] second[j];
        assert(written(first).contains_key(first[i].0));
    }
    assert(written(first) =~= written(second));
}

} // verus!
