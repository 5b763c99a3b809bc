//! The field map: the structured form of one log line.

use vstd::prelude::*;
use vstd::utf8::*;

verus! {

/// Compares two string slices byte by byte.
pub fn str_eq(a: &str, b: &str) -> (same: bool)
    ensures
        same == (a@ == b@),
{
    let x = a.as_bytes();
    let y = b.as_bytes();
    proof {
        encode_utf8_decode_utf8(a@);
        encode_utf8_decode_utf8(b@);
    }
    if x.len() != y.len() {
        return false;
    }
    let mut i: usize = 0;
    while i < x.len()
        invariant
            i <= x.len(),
            x.len() == y.len(),
            x@ == encode_utf8(a@),
            y@ == encode_utf8(b@),
            forall|j: int| 0 <= j < i ==> x@[j] == y@[j],
        decreases x.len() - i,
    {
        if x[i] != y[i] {
            return false;
        }
        i += 1;
    }
    assert(x@ =~= y@);
    true
}

/// A mapping from field names to field values. No field name occurs twice.
pub struct FieldMap {
    entries: Vec<(String, String)>,
}

/// The position of `key` among `entries`, where it occurs.
pub open spec fn position_of(entries: Seq<(String, String)>, key: Seq<char>) -> int {
    choose|i: int| 0 <= i < entries.len() && (#[trigger] entries[i]).0@ == key
}

/// No two entries carry the same name.
pub open spec fn distinct_names(entries: Seq<(String, String)>) -> bool {
    forall|i: int, j: int|
        0 <= i < j < entries.len() ==> (#[trigger] entries[i]).0@ != (#[trigger] entries[j]).0@
}

/// The mapping that a list of pairs builds up, pair by pair.
pub open spec fn map_of_pairs(pairs: Seq<(String, String)>) -> Map<Seq<char>, Seq<char>>
    decreases pairs.len(),
{
    if pairs.len() == 0 {
        Map::empty()
    } else {
        map_of_pairs(pairs.drop_last()).insert(pairs.last().0@, pairs.last().1@)
    }
}

/// The mapping that a list of entries with distinct names stands for.
pub open spec fn entries_map(entries: Seq<(String, String)>) -> Map<Seq<char>, Seq<char>> {
    Map::new(
        |k: Seq<char>| exists|i: int| 0 <= i < entries.len() && (#[trigger] entries[i]).0@ == k,
        |k: Seq<char>| entries[position_of(entries, k)].1@,
    )
}

impl View for FieldMap {
    type V = Map<Seq<char>, Seq<char>>;

    closed spec fn view(&self) -> Map<Seq<char>, Seq<char>> {
        entries_map(self.entries@)
    }
}

impl FieldMap {
    #[verifier::type_invariant]
    spec fn names_are_distinct(self) -> bool {
        distinct_names(self.entries@)
    }

    /// The map without any field.
    pub fn new() -> (fields: FieldMap)
        ensures
            fields@ == Map::<Seq<char>, Seq<char>>::empty(),
    {
        let fields = FieldMap { entries: Vec::new() };
        assert(fields@ =~= Map::<Seq<char>, Seq<char>>::empty());
        fields
    }

    /// The index of the entry named `key`, if there is one.
    fn find(&self, key: &str) -> (found: Option<usize>)
        ensures
            match found {
                Some(i) => i < self.entries@.len() && self.entries@[i as int].0@ == key@,
                None => forall|j: int| 0 <= j < self.entries@.len() ==> self.entries@[j].0@ != key@,
            },
    {
        let mut i: usize = 0;
        while i < self.entries.len()
            invariant
                i <= self.entries@.len(),
                forall|j: int| 0 <= j < i ==> self.entries@[j].0@ != key@,
            decreases self.entries@.len() - i,
        {
            if str_eq(self.entries[i].0.as_str(), key) {
                return Some(i);
            }
            i += 1;
        }
        None
    }

    /// Sets the field `key` to `value`, whether or not the map held it before.
    pub fn insert(&mut self, key: String, value: String)
        ensures
            final(self)@ == old(self)@.insert(key@, value@),
    {
        let mut taken = FieldMap::new();
        core::mem::swap(self, &mut taken);
        *self = taken.with(key, value);
    }

    /// This map with the field `key` set to `value`.
    pub fn with(self, key: String, value: String) -> (fields: FieldMap)
        ensures
            fields@ == self@.insert(key@, value@),
    {
        proof {
            use_type_invariant(&self);
        }
        let ghost before = self.entries@;
        let found = self.find(key.as_str());
        let mut entries = self.entries;
        match found {
            Some(i) => {
                entries.set(i, (key, value));
                proof {
                    let after = entries@;
                    assert forall|k: Seq<char>|
                        entries_map(after).dom().contains(k) <==> entries_map(before).insert(
                            key@,
                            value@,
                        ).dom().contains(k) by {
                        if entries_map(after).dom().contains(k) {
                            let j = choose|j: int| 0 <= j < after.len() && (#[trigger] after[j]).0@ == k;
                            assert(before[j].0@ == k);
                        }
                        if k == key@ {
                            assert(after[i as int].0@ == k);
                        } else if entries_map(before).dom().contains(k) {
                            let j = choose|j: int| 0 <= j < before.len() && (#[trigger] before[j]).0@ == k;
                            assert(after[j].0@ == k);
                        }
                    }
                    assert forall|k: Seq<char>| entries_map(after).dom().contains(k) implies entries_map(
                        after,
                    )[k] == entries_map(before).insert(key@, value@)[k] by {
                        let j = position_of(after, k);
                        if k == key@ {
                            assert(after[i as int].0@ == k);
                        } else {
                            assert(before[j].0@ == k);
                            let j0 = position_of(before, k);
                        }
                    }
                    assert(entries_map(after) =~= entries_map(before).insert(key@, value@));
                }
            },
            None => {
                entries.push((key, value));
                proof {
                    let after = entries@;
                    let last = after.len() - 1;
                    assert forall|k: Seq<char>|
                        entries_map(after).dom().contains(k) <==> entries_map(before).insert(
                            key@,
                            value@,
                        ).dom().contains(k) by {
                        if entries_map(after).dom().contains(k) {
                            let j = choose|j: int| 0 <= j < after.len() && (#[trigger] after[j]).0@ == k;
                            if j < last {
                                assert(before[j].0@ == k);
                            }
                        }
                        if k == key@ {
                            assert(after[last].0@ == k);
                        } else if entries_map(before).dom().contains(k) {
                            let j = choose|j: int| 0 <= j < before.len() && (#[trigger] before[j]).0@ == k;
                            assert(after[j].0@ == k);
                        }
                    }
                    assert forall|k: Seq<char>| entries_map(after).dom().contains(k) implies entries_map(
                        after,
                    )[k] == entries_map(before).insert(key@, value@)[k] by {
                        let j = position_of(after, k);
                        if k == key@ {
                            assert(after[last].0@ == k);
                        } else {
                            assert(before[j].0@ == k);
                            let j0 = position_of(before, k);
                        }
                    }
                    assert(entries_map(after) =~= entries_map(before).insert(key@, value@));
                }
            },
        }
        FieldMap { entries }
    }

    /// The value of the field `key`, if the map holds it.
    pub fn get(&self, key: &str) -> (value: Option<&String>)
        ensures
            match value {
                Some(v) => self@.contains_key(key@) && self@[key@] == v@,
                None => !self@.contains_key(key@),
            },
    {
        proof {
            use_type_invariant(self);
        }
        match self.find(key) {
            Some(i) => {
                assert(self.entries@[i as int].0@ == key@);
                Some(&self.entries[i].1)
            },
            None => None,
        }
    }

    /// Whether the map holds the field `key`.
    pub fn contains_key(&self, key: &str) -> (held: bool)
        ensures
            held == self@.contains_key(key@),
    {
        self.get(key).is_some()
    }

    /// The map of the given pairs of name and value. Where a name comes
    /// twice, the later pair counts.
    pub fn from_pairs(pairs: &Vec<(String, String)>) -> (fields: FieldMap)
        ensures
            fields@ == map_of_pairs(pairs@),
    {
        let mut fields = FieldMap::new();
        let mut i: usize = 0;
        while i < pairs.len()
            invariant
                i <= pairs@.len(),
                fields@ == map_of_pairs(pairs@.subrange(0, i as int)),
            decreases pairs@.len() - i,
        {
            proof {
                assert(pairs@.subrange(0, i + 1).drop_last() =~= pairs@.subrange(0, i as int));
            }
            fields.insert(pairs[i].0.clone(), pairs[i].1.clone());
            i += 1;
        }
        assert(pairs@.subrange(0, i as int) =~= pairs@);
        fields
    }

    /// The fields as pairs of name and value, each name once.
    pub fn pairs(&self) -> (pairs: &Vec<(String, String)>)
        ensures
            distinct_names(pairs@),
            entries_map(pairs@) == self@,
    {
        proof {
            use_type_invariant(self);
        }
        &self.entries
    }

    /// The number of fields.
    pub fn len(&self) -> (n: usize)
        ensures
            n == self@.len(),
            self@.dom().finite(),
    {
        proof {
            use_type_invariant(self);
            lemma_entries_map_len(self.entries@);
        }
        self.entries.len()
    }
}

/// A list of entries with distinct names stands for a map of as many fields.
pub proof fn lemma_entries_map_len(entries: Seq<(String, String)>)
    requires
        distinct_names(entries),
    ensures
        entries_map(entries).dom().finite(),
        entries_map(entries).len() == entries.len(),
    decreases entries.len(),
{
    if entries.len() == 0 {
        assert(entries_map(entries).dom() =~= Set::<Seq<char>>::empty());
    } else {
        let front = entries.drop_last();
        let last = entries.last();
        lemma_entries_map_len(front);
        assert forall|k: Seq<char>|
            entries_map(entries).dom().contains(k) <==> entries_map(front).dom().insert(
                last.0@,
            ).contains(k) by {
            if entries_map(entries).dom().contains(k) {
                let j = choose|j: int| 0 <= j < entries.len() && (#[trigger] entries[j]).0@ == k;
                if j < entries.len() - 1 {
                    assert(front[j].0@ == k);
                }
            }
            if k == last.0@ {
                assert(entries[entries.len() - 1].0@ == k);
            } else if entries_map(front).dom().contains(k) {
                let j = choose|j: int| 0 <= j < front.len() && (#[trigger] front[j]).0@ == k;
                assert(entries[j].0@ == k);
            }
        }
        assert(entries_map(entries).dom() =~= entries_map(front).dom().insert(last.0@));
        if entries_map(front).dom().contains(last.0@) {
            let j = choose|j: int| 0 <= j < front.len() && (#[trigger] front[j]).0@ == last.0@;
            assert(entries[j].0@ == entries[entries.len() - 1].0@);
        }
    }
}

} // verus!
