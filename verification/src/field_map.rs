//! A map from field names to values that keeps its fields in insertion order, as
//! states, filters and updates hold them.
use vstd::prelude::*;
use crate::text::str_equals;

verus! {

/// The text pairs of a list of entries.
pub open spec fn entry_views(e: Seq<(String, String)>) -> Seq<(Seq<char>, Seq<char>)> {
    e.map_values(|p: (String, String)| (p.0@, p.1@))
}

/// Whether no field name occurs twice.
pub open spec fn unique_keys(e: Seq<(Seq<char>, Seq<char>)>) -> bool {
    forall|i: int, j: int| 0 <= i < j < e.len() ==> (#[trigger] e[i]).0 != (#[trigger] e[j]).0
}

/// The position of field `k`, searching from the end.
pub open spec fn key_position(e: Seq<(Seq<char>, Seq<char>)>, k: Seq<char>) -> Option<int>
    decreases e.len(),
{
    if e.len() == 0 {
        None
    } else if e.last().0 == k {
        Some(e.len() - 1)
    } else {
        key_position(e.drop_last(), k)
    }
}

/// The value of field `k`, if present.
pub open spec fn lookup(e: Seq<(Seq<char>, Seq<char>)>, k: Seq<char>) -> Option<Seq<char>> {
    match key_position(e, k) {
        Some(i) => Some(e[i].1),
        None => None,
    }
}

/// The entries after setting field `k` to `v`: in place when present, appended when not.
pub open spec fn inserted(e: Seq<(Seq<char>, Seq<char>)>, k: Seq<char>, v: Seq<char>) -> Seq<(Seq<char>, Seq<char>)> {
    match key_position(e, k) {
        Some(i) => e.update(i, (k, v)),
        None => e.push((k, v)),
    }
}

/// The entries after setting each field of `o`, in order.
pub open spec fn extended(e: Seq<(Seq<char>, Seq<char>)>, o: Seq<(Seq<char>, Seq<char>)>) -> Seq<(Seq<char>, Seq<char>)>
    decreases o.len(),
{
    if o.len() == 0 {
        e
    } else {
        let prefix = extended(e, o.drop_last());
        inserted(prefix, o.last().0, o.last().1)
    }
}

/// The entries whose field is not among `keys`, in order.
pub open spec fn without_fields(e: Seq<(Seq<char>, Seq<char>)>, keys: Seq<Seq<char>>) -> Seq<(Seq<char>, Seq<char>)>
    decreases e.len(),
{
    if e.len() == 0 {
        Seq::empty()
    } else {
        let rest = without_fields(e.drop_last(), keys);
        if keys.contains(e.last().0) {
            rest
        } else {
            rest.push(e.last())
        }
    }
}

/// The position found for `k` holds `k`; where there is none, no entry holds `k`.
pub proof fn lemma_key_position(e: Seq<(Seq<char>, Seq<char>)>, k: Seq<char>)
    ensures
        key_position(e, k) matches Some(i) ==> 0 <= i < e.len() && e[i].0 == k,
        key_position(e, k) is None ==> forall|j: int| 0 <= j < e.len() ==> (#[trigger] e[j]).0 != k,
    decreases e.len(),
{
    if e.len() > 0 && e.last().0 != k {
        lemma_key_position(e.drop_last(), k);
        assert forall|j: int| 0 <= j < e.len() - 1 implies (#[trigger] e[j]) == e.drop_last()[j] by {}
    }
}

/// Setting a field that no entry holds appends it.
pub proof fn lemma_inserted_absent(e: Seq<(Seq<char>, Seq<char>)>, k: Seq<char>, v: Seq<char>)
    requires
        forall|j: int| 0 <= j < e.len() ==> (#[trigger] e[j]).0 != k,
    ensures
        inserted(e, k, v) == e.push((k, v)),
{
    lemma_key_position(e, k);
}

/// With unique fields, the entry holding `k` is the one found.
pub proof fn lemma_key_position_unique(e: Seq<(Seq<char>, Seq<char>)>, k: Seq<char>, i: int)
    requires
        unique_keys(e),
        0 <= i < e.len(),
        e[i].0 == k,
    ensures
        key_position(e, k) == Some(i),
    decreases e.len(),
{
    if i < e.len() - 1 {
        assert(e.last() == e[e.len() - 1]);
        assert(e.drop_last()[i] == e[i]);
        assert forall|a: int, b: int| 0 <= a < b < e.drop_last().len() implies (#[trigger] e.drop_last()[a]).0
            != (#[trigger] e.drop_last()[b]).0 by {
            assert(e.drop_last()[a] == e[a] && e.drop_last()[b] == e[b]);
        }
        lemma_key_position_unique(e.drop_last(), k, i);
    }
}

/// Setting a field keeps field names unique.
pub proof fn lemma_inserted_unique(e: Seq<(Seq<char>, Seq<char>)>, k: Seq<char>, v: Seq<char>)
    requires
        unique_keys(e),
    ensures
        unique_keys(inserted(e, k, v)),
        lookup(inserted(e, k, v), k) == Some(v),
{
    lemma_key_position(e, k);
    let r = inserted(e, k, v);
    match key_position(e, k) {
        Some(i) => {
            assert forall|a: int, b: int| 0 <= a < b < r.len() implies (#[trigger] r[a]).0 != (#[trigger] r[b]).0 by {
                assert(r[a].0 == e[a].0 && r[b].0 == e[b].0);
            }
            lemma_key_position_unique(r, k, i);
        },
        None => {
            assert forall|a: int, b: int| 0 <= a < b < r.len() implies (#[trigger] r[a]).0 != (#[trigger] r[b]).0 by {
                if b < e.len() {
                    assert(r[a] == e[a] && r[b] == e[b]);
                } else {
                    assert(r[a] == e[a]);
                }
            }
            lemma_key_position_unique(r, k, e.len() as int);
        },
    }
}

/// Field names mapped to values, in insertion order; each name occurs once.
pub struct FieldMap {
    entries: Vec<(String, String)>,
}

impl View for FieldMap {
    type V = Seq<(Seq<char>, Seq<char>)>;

    closed spec fn view(&self) -> Seq<(Seq<char>, Seq<char>)> {
        entry_views(self.entries@)
    }
}

impl FieldMap {
    #[verifier::type_invariant]
    spec fn fields_unique(self) -> bool {
        unique_keys(entry_views(self.entries@))
    }

    /// A map without fields.
    pub fn new() -> (map: FieldMap)
        ensures
            map@ == Seq::<(Seq<char>, Seq<char>)>::empty(),
    {
        let map = FieldMap { entries: Vec::new() };
        assert(entry_views(map.entries@) =~= Seq::empty());
        map
    }

    /// A map with one field.
    pub fn with_field(field: &str, value: &str) -> (map: FieldMap)
        ensures
            map@ == seq![(field@, value@)],
    {
        let mut map = FieldMap::new();
        map.insert(field, value);
        assert(map@ =~= seq![(field@, value@)]);
        map
    }

    /// Whether the map has no field.
    pub fn is_empty(&self) -> (empty: bool)
        ensures
            empty == (self@.len() == 0),
    {
        self.entries.len() == 0
    }

    /// The number of fields.
    pub fn len(&self) -> (n: usize)
        ensures
            n == self@.len(),
    {
        self.entries.len()
    }

    /// The position of a field, if present.
    fn position(&self, field: &str) -> (pos: Option<usize>)
        ensures
            match pos {
                Some(i) => key_position(self@, field@) == Some(i as int) && i < self@.len() && self@[i as int].0
                    == field@,
                None => key_position(self@, field@) is None,
            },
    {
        proof {
            use_type_invariant(self);
        }
        let mut i: usize = 0;
        while i < self.entries.len()
            invariant
                i <= self.entries@.len(),
                unique_keys(self@),
                self@ == entry_views(self.entries@),
                forall|j: int| 0 <= j < i ==> (#[trigger] self@[j]).0 != field@,
            decreases self.entries@.len() - i,
        {
            if str_equals(self.entries[i].0.as_str(), field) {
                proof {
                    lemma_key_position_unique(self@, field@, i as int);
                }
                return Some(i);
            }
            i = i + 1;
        }
        proof {
            lemma_key_position(self@, field@);
            if key_position(self@, field@) is Some {
                let j = key_position(self@, field@)->0;
                assert(self@[j].0 == field@);
            }
        }
        None
    }

    /// The value of a field, if present.
    pub fn get(&self, field: &str) -> (value: Option<String>)
        ensures
            match value {
                Some(v) => lookup(self@, field@) == Some(v@),
                None => lookup(self@, field@) is None,
            },
    {
        match self.position(field) {
            Some(i) => {
                assert(self@[i as int].1 == self.entries@[i as int].1@);
                Some(self.entries[i].1.clone())
            },
            None => None,
        }
    }

    /// Whether a field is present.
    pub fn contains_key(&self, field: &str) -> (present: bool)
        ensures
            present == (lookup(self@, field@) is Some),
    {
        self.position(field).is_some()
    }

    /// Sets a field: in place when present, appended when not.
    pub fn insert(&mut self, field: &str, value: &str)
        ensures
            final(self)@ == inserted(old(self)@, field@, value@),
    {
        proof {
            use_type_invariant(&*self);
            lemma_inserted_unique(self@, field@, value@);
        }
        let pos = self.position(field);
        proof {
            lemma_key_position(self@, field@);
        }
        let entry = (crate::text::to_owned_string(field), crate::text::to_owned_string(value));
        let ghost before = self.entries@;
        match pos {
            Some(i) => {
                let mut entries: Vec<(String, String)> = Vec::new();
                std::mem::swap(&mut entries, &mut self.entries);
                entries.set(i, entry);
                assert(entry_views(entries@) =~= entry_views(before).update(i as int, (field@, value@)));
                self.entries = entries;
            },
            None => {
                let mut entries: Vec<(String, String)> = Vec::new();
                std::mem::swap(&mut entries, &mut self.entries);
                entries.push(entry);
                assert(entry_views(entries@) =~= entry_views(before).push((field@, value@)));
                self.entries = entries;
            },
        }
    }

    /// Sets every field of `other`, in its order.
    pub fn extend(&mut self, other: &FieldMap)
        ensures
            final(self)@ == extended(old(self)@, other@),
    {
        let ghost start = self@;
        let mut i: usize = 0;
        while i < other.entries.len()
            invariant
                i <= other@.len(),
                other@ == entry_views(other.entries@),
                self@ == extended(start, other@.take(i as int)),
            decreases other@.len() - i,
        {
            proof {
                assert(other@.take(i + 1).drop_last() =~= other@.take(i as int));
                assert(other@.take(i + 1).last() == other@[i as int]);
            }
            let (k, v) = (&other.entries[i].0, &other.entries[i].1);
            self.insert(k.as_str(), v.as_str());
            i = i + 1;
        }
        assert(other@.take(other@.len() as int) =~= other@);
    }

    /// A copy of the map.
    pub fn duplicate(&self) -> (copy: FieldMap)
        ensures
            copy@ == self@,
    {
        proof {
            use_type_invariant(self);
        }
        let mut entries: Vec<(String, String)> = Vec::new();
        let mut i: usize = 0;
        while i < self.entries.len()
            invariant
                i <= self.entries@.len(),
                entry_views(entries@) == entry_views(self.entries@).take(i as int),
            decreases self.entries@.len() - i,
        {
            let ghost before = entries@;
            entries.push((self.entries[i].0.clone(), self.entries[i].1.clone()));
            assert(entry_views(entries@) =~= entry_views(before).push(entry_views(self.entries@)[i as int]));
            assert(entry_views(entries@) =~= entry_views(self.entries@).take(i + 1));
            i = i + 1;
        }
        assert(entry_views(self.entries@).take(self.entries@.len() as int) =~= entry_views(self.entries@));
        FieldMap { entries }
    }

    /// The fields and values, in order.
    pub fn pairs(&self) -> (pairs: Vec<(String, String)>)
        ensures
            entry_views(pairs@) == self@,
    {
        self.duplicate().entries
    }

    /// The field names, in order.
    pub fn keys(&self) -> (keys: Vec<String>)
        ensures
            crate::text::string_views(keys@) == self@.map_values(|p: (Seq<char>, Seq<char>)| p.0),
    {
        let mut keys: Vec<String> = Vec::new();
        let mut i: usize = 0;
        while i < self.entries.len()
            invariant
                i <= self.entries@.len(),
                crate::text::string_views(keys@) == self@.map_values(|p: (Seq<char>, Seq<char>)| p.0).take(i as int),
            decreases self.entries@.len() - i,
        {
            let ghost before = keys@;
            keys.push(self.entries[i].0.clone());
            assert(crate::text::string_views(keys@) =~= crate::text::string_views(before).push(self@[i as int].0));
            assert(crate::text::string_views(keys@) =~= self@.map_values(|p: (Seq<char>, Seq<char>)| p.0).take(i + 1));
            i = i + 1;
        }
        assert(self@.map_values(|p: (Seq<char>, Seq<char>)| p.0).take(self@.len() as int)
            =~= self@.map_values(|p: (Seq<char>, Seq<char>)| p.0));
        keys
    }

    /// A map of the given pairs, set in order (a later pair for a field wins).
    pub fn from_pairs(pairs: &Vec<(String, String)>) -> (map: FieldMap)
        ensures
            map@ == extended(Seq::empty(), entry_views(pairs@)),
    {
        let mut map = FieldMap::new();
        let mut i: usize = 0;
        while i < pairs.len()
            invariant
                i <= pairs@.len(),
                map@ == extended(Seq::empty(), entry_views(pairs@).take(i as int)),
            decreases pairs@.len() - i,
        {
            proof {
                assert(entry_views(pairs@).take(i + 1).drop_last() =~= entry_views(pairs@).take(i as int));
                assert(entry_views(pairs@).take(i + 1).last() == (pairs@[i as int].0@, pairs@[i as int].1@));
            }
            map.insert(pairs[i].0.as_str(), pairs[i].1.as_str());
            i = i + 1;
        }
        assert(entry_views(pairs@).take(pairs@.len() as int) =~= entry_views(pairs@));
        map
    }

    /// The map without the given fields.
    pub fn without(&self, fields: &[&str]) -> (map: FieldMap)
        ensures
            map@ == without_fields(self@, fields@.map_values(|f: &str| f@)),
    {
        proof {
            use_type_invariant(self);
        }
        let ghost keys = fields@.map_values(|f: &str| f@);
        let mut entries: Vec<(String, String)> = Vec::new();
        let mut i: usize = 0;
        while i < self.entries.len()
            invariant
                i <= self.entries@.len(),
                self@ == entry_views(self.entries@),
                unique_keys(self@),
                keys == fields@.map_values(|f: &str| f@),
                entry_views(entries@) == without_fields(self@.take(i as int), keys),
                forall|a: int| 0 <= a < entries@.len() ==> exists|b: int| 0 <= b < i && (#[trigger] entry_views(entries@)[a]) == self@[b],
            decreases self.entries@.len() - i,
        {
            proof {
                assert(self@.take(i + 1).drop_last() =~= self@.take(i as int));
                assert(self@.take(i + 1).last() == self@[i as int]);
            }
            let mut listed = false;
            let mut k: usize = 0;
            while k < fields.len()
                invariant
                    k <= fields@.len(),
                    i < self.entries@.len(),
                    listed == exists|q: int| 0 <= q < k && fields@[q]@ == self@[i as int].0,
                    self@ == entry_views(self.entries@),
                decreases fields@.len() - k,
            {
                if str_equals(fields[k], self.entries[i].0.as_str()) {
                    listed = true;
                }
                k = k + 1;
            }
            proof {
                if listed {
                    let q = choose|q: int| 0 <= q < k && fields@[q]@ == self@[i as int].0;
                    assert(keys[q] == self@[i as int].0);
                }
                if keys.contains(self@[i as int].0) {
                    let q = choose|q: int| 0 <= q < keys.len() && keys[q] == self@[i as int].0;
                    assert(fields@[q]@ == self@[i as int].0);
                }
            }
            if !listed {
                let ghost before = entries@;
                entries.push((self.entries[i].0.clone(), self.entries[i].1.clone()));
                assert(entry_views(entries@) =~= entry_views(before).push(self@[i as int]));
                assert forall|a: int| 0 <= a < entries@.len() implies exists|b: int| 0 <= b < i + 1 && (#[trigger] entry_views(entries@)[a]) == self@[b] by {
                    if a < before.len() {
                        assert(entry_views(entries@)[a] == entry_views(before)[a]);
                    } else {
                        assert(entry_views(entries@)[a] == self@[i as int]);
                    }
                }
                assert(entry_views(entries@) =~= without_fields(self@.take(i + 1), keys));
            }
            i = i + 1;
        }
        assert(self@.take(self@.len() as int) =~= self@);
        proof {
            assert forall|a: int, b: int| 0 <= a < b < entry_views(entries@).len() implies (#[trigger] entry_views(entries@)[a]).0
                != (#[trigger] entry_views(entries@)[b]).0 by {
                lemma_without_fields_order(self@, keys, a, b);
            }
        }
        FieldMap { entries }
    }
}

/// The entries kept by [`without_fields`] keep their relative order, so fields stay
/// unique.
proof fn lemma_without_fields_order(e: Seq<(Seq<char>, Seq<char>)>, keys: Seq<Seq<char>>, a: int, b: int)
    requires
        unique_keys(e),
        0 <= a < b < without_fields(e, keys).len(),
    ensures
        without_fields(e, keys)[a].0 != without_fields(e, keys)[b].0,
    decreases e.len(),
{
    let rest = without_fields(e.drop_last(), keys);
    assert forall|x: int, y: int| 0 <= x < y < e.drop_last().len() implies (#[trigger] e.drop_last()[x]).0
        != (#[trigger] e.drop_last()[y]).0 by {
        assert(e.drop_last()[x] == e[x] && e.drop_last()[y] == e[y]);
    }
    if keys.contains(e.last().0) {
        lemma_without_fields_order(e.drop_last(), keys, a, b);
    } else if b < rest.len() {
        lemma_without_fields_order(e.drop_last(), keys, a, b);
    } else {
        lemma_without_fields_from(e.drop_last(), keys, a);
        let j = choose|j: int| 0 <= j < e.drop_last().len() && e.drop_last()[j] == rest[a];
        assert(e[j] == rest[a]);
        assert(e[e.len() - 1] == e.last());
    }
}

/// Each entry kept by [`without_fields`] is an entry of the input.
proof fn lemma_without_fields_from(e: Seq<(Seq<char>, Seq<char>)>, keys: Seq<Seq<char>>, a: int)
    requires
        0 <= a < without_fields(e, keys).len(),
    ensures
        exists|j: int| 0 <= j < e.len() && e[j] == without_fields(e, keys)[a],
    decreases e.len(),
{
    let rest = without_fields(e.drop_last(), keys);
    if a < rest.len() {
        lemma_without_fields_from(e.drop_last(), keys, a);
        let j = choose|j: int| 0 <= j < e.drop_last().len() && e.drop_last()[j] == rest[a];
        assert(e[j] == e.drop_last()[j]);
    } else {
        assert(e[e.len() - 1] == without_fields(e, keys)[a]);
    }
}

} // verus!

verus! {

/// Reading a field after setting it gives the value set; the other fields read as
/// before.
pub proof fn lemma_read_after_write(e: Seq<(Seq<char>, Seq<char>)>, k: Seq<char>, v: Seq<char>, other: Seq<char>)
    requires
        unique_keys(e),
        other != k,
    ensures
        lookup(inserted(e, k, v), k) == Some(v),
        lookup(inserted(e, k, v), other) == lookup(e, other),
{
    lemma_inserted_unique(e, k, v);
    lemma_key_position(e, k);
    lemma_key_position(e, other);
    let r = inserted(e, k, v);
    lemma_key_position(r, other);
    match key_position(e, other) {
        Some(i) => {
            assert(r[i].0 == other);
            lemma_key_position_unique(r, other, i);
        },
        None => {
            if key_position(r, other) is Some {
                let j = key_position(r, other)->0;
                if j < e.len() {
                    assert(r[j].0 == e[j].0 || r[j].0 == k);
                }
            }
        },
    }
}

} // verus!

verus! {

/// A field dropped by [`without_fields`] is gone.
pub proof fn lemma_without_fields_drops(e: Seq<(Seq<char>, Seq<char>)>, keys: Seq<Seq<char>>, k: Seq<char>)
    requires
        keys.contains(k),
    ensures
        lookup(without_fields(e, keys), k) is None,
    decreases e.len(),
{
    if e.len() > 0 {
        lemma_without_fields_drops(e.drop_last(), keys, k);
        let rest = without_fields(e.drop_last(), keys);
        lemma_key_position(rest, k);
        if !keys.contains(e.last().0) {
            let r = rest.push(e.last());
            assert(r.drop_last() =~= rest);
            assert(e.last().0 != k);
        }
    }
}

} // verus!
