//! The metadata of one image: a mapping from tag name to display value.
//!
//! The mapping is kept as a list of entries in which no name occurs twice.
//! An entry keeps the place it got when its name was first inserted.

use vstd::prelude::*;

verus! {

/// The mapping that results when the pairs are inserted one after another
/// into an empty mapping: a later pair replaces an earlier one of the same
/// name.
pub open spec fn pairs_to_map(pairs: Seq<(Seq<char>, Seq<char>)>) -> Map<Seq<char>, Seq<char>>
    decreases pairs.len(),
{
    if pairs.len() == 0 {
        Map::empty()
    } else {
        pairs_to_map(pairs.drop_last()).insert(pairs.last().0, pairs.last().1)
    }
}

/// Some pair carries this name.
pub open spec fn has_name(pairs: Seq<(Seq<char>, Seq<char>)>, name: Seq<char>) -> bool {
    exists|i: int| 0 <= i < pairs.len() && (#[trigger] pairs[i]).0 == name
}

/// No name occurs in two pairs.
pub open spec fn distinct_names(pairs: Seq<(Seq<char>, Seq<char>)>) -> bool {
    forall|i: int, j: int|
        0 <= i < j < pairs.len() ==> (#[trigger] pairs[i]).0 != (#[trigger] pairs[j]).0
}

/// A place at which the name stands, if it stands anywhere.
pub open spec fn place_of(pairs: Seq<(Seq<char>, Seq<char>)>, name: Seq<char>) -> int {
    choose|i: int| 0 <= i < pairs.len() && (#[trigger] pairs[i]).0 == name
}

/// The list after one insertion: the value replaces the old one in place
/// where the name is known, and the pair goes to the end where it is new.
pub open spec fn put(
    entries: Seq<(Seq<char>, Seq<char>)>,
    name: Seq<char>,
    value: Seq<char>,
) -> Seq<(Seq<char>, Seq<char>)> {
    if has_name(entries, name) {
        entries.update(place_of(entries, name), (name, value))
    } else {
        entries.push((name, value))
    }
}

/// The list after the pairs were inserted one after another into an empty
/// list.
pub open spec fn merged(pairs: Seq<(Seq<char>, Seq<char>)>) -> Seq<(Seq<char>, Seq<char>)>
    decreases pairs.len(),
{
    if pairs.len() == 0 {
        Seq::empty()
    } else {
        put(merged(pairs.drop_last()), pairs.last().0, pairs.last().1)
    }
}

/// The names of a mapping built from pairs are the names of the pairs.
pub proof fn lemma_names_of_map(pairs: Seq<(Seq<char>, Seq<char>)>, name: Seq<char>)
    ensures
        pairs_to_map(pairs).contains_key(name) <==> has_name(pairs, name),
    decreases pairs.len(),
{
    if pairs.len() > 0 {
        let front = pairs.drop_last();
        lemma_names_of_map(front, name);
        if has_name(pairs, name) {
            let i = place_of(pairs, name);
            if i < front.len() {
                assert(front[i] == pairs[i]);
            }
        }
        if has_name(front, name) {
            let i = place_of(front, name);
            assert(pairs[i] == front[i]);
        }
        if pairs.last().0 == name {
            assert(pairs[pairs.len() - 1].0 == name);
        }
    }
}

/// Of the pairs that share a name, the last one decides the value.
pub proof fn lemma_last_pair_wins(pairs: Seq<(Seq<char>, Seq<char>)>, i: int)
    requires
        0 <= i < pairs.len(),
        forall|j: int| i < j < pairs.len() ==> (#[trigger] pairs[j]).0 != pairs[i].0,
    ensures
        pairs_to_map(pairs).contains_key(pairs[i].0),
        pairs_to_map(pairs)[pairs[i].0] == pairs[i].1,
    decreases pairs.len(),
{
    if i < pairs.len() - 1 {
        let front = pairs.drop_last();
        assert(front[i] == pairs[i]);
        assert forall|j: int| i < j < front.len() implies (#[trigger] front[j]).0
            != front[i].0 by {
            assert(front[j] == pairs[j]);
        }
        lemma_last_pair_wins(front, i);
        assert(pairs[pairs.len() - 1].0 != pairs[i].0);
    }
}

/// In a list without repeated names, every entry is found under its name.
pub proof fn lemma_distinct_lookup(entries: Seq<(Seq<char>, Seq<char>)>, i: int)
    requires
        distinct_names(entries),
        0 <= i < entries.len(),
    ensures
        has_name(entries, entries[i].0),
        place_of(entries, entries[i].0) == i,
        pairs_to_map(entries)[entries[i].0] == entries[i].1,
{
    let name = entries[i].0;
    let p = place_of(entries, name);
    assert(entries[p].0 == name);
    lemma_last_pair_wins(entries, i);
}

/// One insertion into a list without repeated names leaves no repeated name
/// and changes the mapping by exactly that insertion.
pub proof fn lemma_put(entries: Seq<(Seq<char>, Seq<char>)>, name: Seq<char>, value: Seq<char>)
    requires
        distinct_names(entries),
    ensures
        distinct_names(put(entries, name, value)),
        pairs_to_map(put(entries, name, value)) == pairs_to_map(entries).insert(name, value),
{
    let after = put(entries, name, value);
    if has_name(entries, name) {
        let p = place_of(entries, name);
        assert(entries[p].0 == name);
        assert forall|i: int, j: int| 0 <= i < j < after.len() implies (#[trigger] after[i]).0 != (
        #[trigger] after[j]).0 by {
            assert(after[i].0 == entries[i].0);
            assert(after[j].0 == entries[j].0);
        }
        assert forall|k: Seq<char>|
            pairs_to_map(after).contains_key(k) <==> pairs_to_map(entries).insert(
                name,
                value,
            ).contains_key(k) by {
            lemma_names_of_map(after, k);
            lemma_names_of_map(entries, k);
            if has_name(after, k) {
                let i = place_of(after, k);
                assert(entries[i].0 == after[i].0);
            }
            if has_name(entries, k) {
                let i = place_of(entries, k);
                assert(after[i].0 == entries[i].0);
            }
        }
        assert forall|k: Seq<char>| pairs_to_map(after).contains_key(k) implies pairs_to_map(
            after,
        )[k] == pairs_to_map(entries).insert(name, value)[k] by {
            lemma_names_of_map(after, k);
            let i = place_of(after, k);
            assert(after[i].0 == k);
            lemma_distinct_lookup(after, i);
            if k != name {
                assert(entries[i] == after[i]);
                lemma_distinct_lookup(entries, i);
            } else {
                assert(entries[i].0 == name);
                assert(i == p);
            }
        }
        assert(pairs_to_map(after) =~= pairs_to_map(entries).insert(name, value));
    } else {
        assert forall|i: int, j: int| 0 <= i < j < after.len() implies (#[trigger] after[i]).0 != (
        #[trigger] after[j]).0 by {
            assert(after[i] == entries[i]);
            if j < entries.len() {
                assert(after[j] == entries[j]);
            }
        }
        assert(after.drop_last() =~= entries);
    }
}

/// Inserting pairs one after another never repeats a name, and gives the
/// mapping that the pairs stand for.
pub proof fn lemma_merged(pairs: Seq<(Seq<char>, Seq<char>)>)
    ensures
        distinct_names(merged(pairs)),
        pairs_to_map(merged(pairs)) == pairs_to_map(pairs),
        merged(pairs).len() <= pairs.len(),
    decreases pairs.len(),
{
    if pairs.len() > 0 {
        lemma_merged(pairs.drop_last());
        lemma_put(merged(pairs.drop_last()), pairs.last().0, pairs.last().1);
    }
}

/// A list without repeated names has as many entries as its mapping has
/// names.
pub proof fn lemma_distinct_count(entries: Seq<(Seq<char>, Seq<char>)>)
    requires
        distinct_names(entries),
    ensures
        pairs_to_map(entries).dom().finite(),
        pairs_to_map(entries).dom().len() == entries.len(),
    decreases entries.len(),
{
    if entries.len() > 0 {
        let front = entries.drop_last();
        assert forall|i: int, j: int| 0 <= i < j < front.len() implies (#[trigger] front[i]).0 != (
        #[trigger] front[j]).0 by {
            assert(front[i] == entries[i]);
            assert(front[j] == entries[j]);
        }
        lemma_distinct_count(front);
        lemma_names_of_map(front, entries.last().0);
        if has_name(front, entries.last().0) {
            let i = place_of(front, entries.last().0);
            assert(entries[i] == front[i]);
            assert(entries[entries.len() - 1].0 == entries[i].0);
        }
        assert(pairs_to_map(entries).dom() =~= pairs_to_map(front).dom().insert(
            entries.last().0,
        ));
    } else {
        assert(pairs_to_map(entries).dom() =~= Set::<Seq<char>>::empty());
    }
}

/// The metadata fields of one image.
#[derive(Debug)]
pub struct MetadataFields {
    entries: Vec<(String, String)>,
}

impl View for MetadataFields {
    type V = Map<Seq<char>, Seq<char>>;

    /// The mapping from tag name to display value.
    open spec fn view(&self) -> Map<Seq<char>, Seq<char>> {
        pairs_to_map(self.listing())
    }
}

impl MetadataFields {
    /// The entries in the order in which their names first came.
    pub closed spec fn listing(&self) -> Seq<(Seq<char>, Seq<char>)> {
        self.entries.deep_view()
    }

    #[verifier::type_invariant]
    spec fn names_occur_once(&self) -> bool {
        distinct_names(self.entries.deep_view())
    }

    /// No fields at all.
    pub fn new() -> (fields: Self)
        ensures
            fields.listing() == Seq::<(Seq<char>, Seq<char>)>::empty(),
            fields@ == Map::<Seq<char>, Seq<char>>::empty(),
    {
        let fields = MetadataFields { entries: Vec::new() };
        assert(fields.entries.deep_view() =~= Seq::<(Seq<char>, Seq<char>)>::empty());
        fields
    }

    /// The number of fields.
    pub fn len(&self) -> (n: usize)
        ensures
            n == self.listing().len(),
            self@.dom().finite(),
            n == self@.dom().len(),
            distinct_names(self.listing()),
    {
        proof {
            use_type_invariant(self);
            lemma_distinct_count(self.listing());
        }
        self.entries.len()
    }

    /// Whether there is no field.
    pub fn is_empty(&self) -> (empty: bool)
        ensures
            empty == (self.listing().len() == 0),
            empty == (self@ == Map::<Seq<char>, Seq<char>>::empty()),
    {
        proof {
            use_type_invariant(self);
            lemma_distinct_count(self.listing());
            if self.listing().len() == 0 {
                assert(self@ =~= Map::<Seq<char>, Seq<char>>::empty());
            }
        }
        self.entries.len() == 0
    }

    /// The entries, in the order of `listing`.
    pub fn entries(&self) -> (entries: &Vec<(String, String)>)
        ensures
            entries.deep_view() == self.listing(),
            distinct_names(self.listing()),
    {
        proof {
            use_type_invariant(self);
        }
        &self.entries
    }

    /// Where the name stands among the entries, if it stands there.
    fn position(entries: &Vec<(String, String)>, name: &String) -> (found: Option<usize>)
        ensures
            match found {
                Some(i) => i < entries.len() && entries.deep_view()[i as int].0 == name@,
                None => !has_name(entries.deep_view(), name@),
            },
    {
        let mut i: usize = 0;
        while i < entries.len()
            invariant
                i <= entries.len(),
                forall|k: int| 0 <= k < i ==> (#[trigger] entries.deep_view()[k]).0 != name@,
            decreases entries.len() - i,
        {
            if entries[i].0 == *name {
                return Some(i);
            }
            i += 1;
        }
        None
    }

    /// The display value of the named field.
    pub fn get(&self, name: &str) -> (value: Option<&String>)
        ensures
            match value {
                Some(v) => self@.contains_key(name@) && v@ == self@[name@],
                None => !self@.contains_key(name@),
            },
    {
        let key = name.to_owned();
        proof {
            use_type_invariant(self);
            lemma_names_of_map(self.listing(), name@);
        }
        match Self::position(&self.entries, &key) {
            Some(i) => {
                proof {
                    lemma_distinct_lookup(self.listing(), i as int);
                }
                Some(&self.entries[i].1)
            },
            None => None,
        }
    }

    /// Whether a field of that name is there.
    pub fn contains_key(&self, name: &str) -> (found: bool)
        ensures
            found == self@.contains_key(name@),
    {
        self.get(name).is_some()
    }

    /// Sets the named field, and hands back the value it had before, if it
    /// had one. A known name keeps its place; a new one goes to the end.
    pub fn insert(&mut self, name: String, value: String) -> (previous: Option<String>)
        ensures
            final(self)@ == old(self)@.insert(name@, value@),
            final(self).listing() == put(old(self).listing(), name@, value@),
            match previous {
                Some(v) => old(self)@.contains_key(name@) && v@ == old(self)@[name@],
                None => !old(self)@.contains_key(name@),
            },
    {
        proof {
            use_type_invariant(&*self);
            lemma_names_of_map(self.listing(), name@);
            lemma_put(self.listing(), name@, value@);
        }
        let ghost before = self.listing();
        let mut entries: Vec<(String, String)> = Vec::new();
        std::mem::swap(&mut entries, &mut self.entries);
        assert(entries.deep_view() == before);
        let previous = match Self::position(&entries, &name) {
            Some(i) => {
                proof {
                    lemma_distinct_lookup(before, i as int);
                }
                let old_value = entries[i].1.clone();
                entries.set(i, (name, value));
                assert(entries.deep_view() =~= put(before, name@, value@));
                Some(old_value)
            },
            None => {
                entries.push((name, value));
                assert(entries.deep_view() =~= put(before, name@, value@));
                None
            },
        };
        self.entries = entries;
        previous
    }

    /// The fields that result when the pairs are inserted one after another.
    pub fn from_pairs(pairs: Vec<(String, String)>) -> (fields: Self)
        ensures
            fields@ == pairs_to_map(pairs.deep_view()),
            fields.listing() == merged(pairs.deep_view()),
    {
        let mut fields = MetadataFields::new();
        let mut pairs = pairs;
        let ghost all = pairs.deep_view();
        let mut i: usize = 0;
        assert(all.take(0) =~= Seq::<(Seq<char>, Seq<char>)>::empty());
        while i < pairs.len()
            invariant
                i <= pairs.len(),
                pairs.deep_view() == all,
                fields.listing() == merged(all.take(i as int)),
            decreases pairs.len() - i,
        {
            let name = pairs[i].0.clone();
            let value = pairs[i].1.clone();
            assert(all.take(i + 1).drop_last() =~= all.take(i as int));
            assert(all.take(i + 1).last() == all[i as int]);
            fields.insert(name, value);
            i += 1;
        }
        proof {
            assert(all.take(i as int) =~= all);
            lemma_merged(all);
        }
        fields
    }
}

} // verus!
