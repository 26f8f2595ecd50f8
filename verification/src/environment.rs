//! Process environments.
use vstd::prelude::*;
use vstd::string::*;

use crate::text::same_text;

verus! {

/// The variables that a list of assignments sets; where one is assigned twice, the later
/// assignment counts.
pub open spec fn map_of(entries: Seq<(Seq<char>, Seq<char>)>) -> Map<Seq<char>, Seq<char>>
    decreases entries.len(),
{
    if entries.len() == 0 {
        Map::empty()
    } else {
        map_of(entries.drop_last()).insert(entries.last().0, entries.last().1)
    }
}

/// Whether every variable occurs once.
pub open spec fn distinct_keys(entries: Seq<(Seq<char>, Seq<char>)>) -> bool {
    forall|i: int, j: int|
        0 <= i < j < entries.len() ==> (#[trigger] entries[i]).0 != (#[trigger] entries[j]).0
}

/// The values of a list of assignments.
pub open spec fn assignments(entries: Seq<(String, String)>) -> Seq<(Seq<char>, Seq<char>)> {
    entries.map_values(|entry: (String, String)| (entry.0@, entry.1@))
}

/// Environment variables with their values.
#[derive(Debug)]
pub struct Environment {
    entries: Vec<(String, String)>,
}

impl View for Environment {
    type V = Map<Seq<char>, Seq<char>>;

    closed spec fn view(&self) -> Map<Seq<char>, Seq<char>> {
        map_of(assignments(self.entries@))
    }
}

proof fn lemma_map_of_contains(entries: Seq<(Seq<char>, Seq<char>)>, key: Seq<char>)
    ensures
        map_of(entries).contains_key(key) <==> exists|i: int|
            0 <= i < entries.len() && (#[trigger] entries[i]).0 == key,
    decreases entries.len(),
{
    if entries.len() > 0 {
        let rest = entries.drop_last();
        lemma_map_of_contains(rest, key);
        if map_of(rest).contains_key(key) {
            let i = choose|i: int| 0 <= i < rest.len() && (#[trigger] rest[i]).0 == key;
            assert(entries[i].0 == key);
        }
        if entries.last().0 == key {
            assert(entries[entries.len() - 1].0 == key);
        }
        if exists|i: int| 0 <= i < entries.len() && (#[trigger] entries[i]).0 == key {
            let i = choose|i: int| 0 <= i < entries.len() && (#[trigger] entries[i]).0 == key;
            if i < rest.len() {
                assert(rest[i].0 == key);
            }
        }
    }
}

proof fn lemma_map_of_value(entries: Seq<(Seq<char>, Seq<char>)>, i: int)
    requires
        distinct_keys(entries),
        0 <= i < entries.len(),
    ensures
        map_of(entries).contains_key(entries[i].0),
        map_of(entries)[entries[i].0] == entries[i].1,
    decreases entries.len(),
{
    let rest = entries.drop_last();
    assert forall|a: int, b: int| 0 <= a < b < rest.len() implies (#[trigger] rest[a]).0 != (
    #[trigger] rest[b]).0 by {
        assert(entries[a].0 != entries[b].0);
    }
    if i < rest.len() {
        lemma_map_of_value(rest, i);
        assert(entries[i].0 != entries[entries.len() - 1].0);
        assert(rest[i] == entries[i]);
    }
}

impl Environment {
    /// No variable is held twice.
    #[verifier::type_invariant]
    spec fn keys_are_distinct(self) -> bool {
        distinct_keys(assignments(self.entries@))
    }

    /// The empty environment.
    pub fn new() -> (environment: Self)
        ensures
            environment@ == Map::<Seq<char>, Seq<char>>::empty(),
    {
        let environment = Environment { entries: Vec::new() };
        proof {
            assert(assignments(environment.entries@).len() == 0);
        }
        environment
    }

    /// The assignments of the environment, each variable once.
    pub fn entries(&self) -> (entries: &Vec<(String, String)>)
        ensures
            distinct_keys(assignments(entries@)),
            map_of(assignments(entries@)) == self@,
    {
        proof {
            use_type_invariant(self);
        }
        &self.entries
    }

    fn find(&self, key: &str) -> (found: Option<usize>)
        ensures
            found is Some <==> self@.contains_key(key@),
            found matches Some(i) ==> i < self.entries@.len() && self.entries@[i as int].0@ == key@
                && self@[key@] == self.entries@[i as int].1@,
    {
        proof {
            use_type_invariant(self);
        }
        let ghost pairs = assignments(self.entries@);
        let mut i: usize = 0;
        while i < self.entries.len()
            invariant
                i <= self.entries@.len(),
                pairs == assignments(self.entries@),
                distinct_keys(pairs),
                self@ == map_of(pairs),
                forall|j: int| 0 <= j < i ==> (#[trigger] pairs[j]).0 != key@,
            decreases self.entries@.len() - i,
        {
            if same_text(self.entries[i].0.as_str(), key) {
                proof {
                    assert(pairs[i as int] == (
                        self.entries@[i as int].0@,
                        self.entries@[i as int].1@,
                    ));
                    lemma_map_of_value(pairs, i as int);
                }
                return Some(i);
            }
            proof {
                assert(pairs[i as int].0 == self.entries@[i as int].0@);
            }
            i += 1;
        }
        proof {
            lemma_map_of_contains(pairs, key@);
        }
        None
    }

    /// The value of a variable.
    pub fn get(&self, key: &str) -> (value: Option<&String>)
        ensures
            value is Some <==> self@.contains_key(key@),
            value matches Some(value) ==> value@ == self@[key@],
    {
        match self.find(key) {
            Some(i) => Some(&self.entries[i].1),
            None => None,
        }
    }

    /// Sets a variable.
    pub fn insert(&mut self, key: String, value: String)
        ensures
            final(self)@ == old(self)@.insert(key@, value@),
    {
        proof {
            use_type_invariant(&*self);
        }
        let found = self.find(key.as_str());
        let ghost before = assignments(self.entries@);
        let ghost pair = (key@, value@);
        let mut entries: Vec<(String, String)> = Vec::new();
        std::mem::swap(&mut entries, &mut self.entries);
        match found {
            Some(i) => {
                entries.set(i, (key, value));
                proof {
                    let after = assignments(entries@);
                    assert(after =~= before.update(i as int, pair));
                    assert(before[i as int].0 == key@);
                    assert forall|a: int, b: int| 0 <= a < b < after.len() implies (
                    #[trigger] after[a]).0 != (#[trigger] after[b]).0 by {
                        assert(before[a].0 != before[b].0);
                    }
                    lemma_update_is_insert(before, i as int, pair);
                }
            },
            None => {
                entries.push((key, value));
                proof {
                    let after = assignments(entries@);
                    assert(after =~= before.push(pair));
                    lemma_map_of_contains(before, key@);
                    assert forall|a: int, b: int| 0 <= a < b < after.len() implies (
                    #[trigger] after[a]).0 != (#[trigger] after[b]).0 by {
                        if b < before.len() {
                            assert(before[a].0 != before[b].0);
                        } else {
                            assert(before[a].0 != key@);
                        }
                    }
                    assert(after.drop_last() =~= before);
                }
            },
        }
        self.entries = entries;
    }

    /// Whether two environments set the same variables to the same values.
    pub fn same(&self, other: &Environment) -> (same: bool)
        ensures
            same == (self@ == other@),
    {
        let forth = self.within(other);
        let back = other.within(self);
        proof {
            self@.lemma_submap_eq_iff(other@);
        }
        forth && back
    }

    fn within(&self, other: &Environment) -> (within: bool)
        ensures
            within == self@.submap_of(other@),
    {
        proof {
            use_type_invariant(self);
        }
        let ghost pairs = assignments(self.entries@);
        let mut i: usize = 0;
        while i < self.entries.len()
            invariant
                i <= self.entries@.len(),
                pairs == assignments(self.entries@),
                distinct_keys(pairs),
                self@ == map_of(pairs),
                forall|j: int|
                    0 <= j < i ==> other@.contains_key((#[trigger] pairs[j]).0)
                        && other@[pairs[j].0] == pairs[j].1,
            decreases self.entries@.len() - i,
        {
            proof {
                assert(pairs[i as int] == (self.entries@[i as int].0@, self.entries@[i as int].1@));
                lemma_map_of_value(pairs, i as int);
            }
            let agrees = match other.get(self.entries[i].0.as_str()) {
                Some(value) => same_text(value.as_str(), self.entries[i].1.as_str()),
                None => false,
            };
            if !agrees {
                proof {
                    let key = pairs[i as int].0;
                    assert(self@.contains_key(key));
                    assert(!(other@.contains_key(key) && other@[key] == self@[key]));
                }
                return false;
            }
            i += 1;
        }
        proof {
            assert forall|key: Seq<char>| #[trigger] self@.contains_key(key) implies
                other@.contains_key(key) && other@[key] == self@[key] by {
                lemma_map_of_contains(pairs, key);
                let j = choose|j: int| 0 <= j < pairs.len() && (#[trigger] pairs[j]).0 == key;
                lemma_map_of_value(pairs, j);
            }
        }
        true
    }
}

impl Clone for Environment {
    fn clone(&self) -> (copy: Self)
        ensures
            copy@ == self@,
    {
        proof {
            use_type_invariant(self);
        }
        let mut entries: Vec<(String, String)> = Vec::new();
        let mut i: usize = 0;
        while i < self.entries.len()
            invariant
                i <= self.entries@.len(),
                entries@.len() == i,
                forall|j: int|
                    0 <= j < i ==> (#[trigger] entries@[j]).0 == self.entries@[j].0
                        && entries@[j].1 == self.entries@[j].1,
            decreases self.entries@.len() - i,
        {
            entries.push((self.entries[i].0.clone(), self.entries[i].1.clone()));
            i += 1;
        }
        proof {
            assert(assignments(entries@) =~= assignments(self.entries@));
        }
        Environment { entries }
    }
}

proof fn lemma_update_is_insert(
    entries: Seq<(Seq<char>, Seq<char>)>,
    i: int,
    pair: (Seq<char>, Seq<char>),
)
    requires
        distinct_keys(entries),
        0 <= i < entries.len(),
        entries[i].0 == pair.0,
        distinct_keys(entries.update(i, pair)),
    ensures
        map_of(entries.update(i, pair)) == map_of(entries).insert(pair.0, pair.1),
{
    let updated = entries.update(i, pair);
    let left = map_of(updated);
    let right = map_of(entries).insert(pair.0, pair.1);
    lemma_map_of_value(updated, i);
    assert forall|key: Seq<char>|
        #![trigger left.dom().contains(key)]
        #![trigger right.dom().contains(key)]
        left.contains_key(key) == right.contains_key(key) && (left.contains_key(key) ==> left[key]
            == right[key]) by {
        lemma_map_of_contains(updated, key);
        lemma_map_of_contains(entries, key);
        if left.contains_key(key) {
            let j = choose|j: int| 0 <= j < updated.len() && (#[trigger] updated[j]).0 == key;
            lemma_map_of_value(updated, j);
            if j != i {
                assert(entries[j].0 == key);
                lemma_map_of_value(entries, j);
                if j < i {
                    assert(updated[j].0 != updated[i].0);
                } else {
                    assert(updated[i].0 != updated[j].0);
                }
            }
        }
        if map_of(entries).contains_key(key) {
            let j = choose|j: int| 0 <= j < entries.len() && (#[trigger] entries[j]).0 == key;
            assert(updated[j].0 == key);
        }
    }
    assert(left =~= right);
}

/// Of several assignments to a variable the last one counts, and nothing else is set.
pub proof fn lemma_the_last_assignment_counts(
    entries: Seq<(Seq<char>, Seq<char>)>,
    i: int,
    key: Seq<char>,
)
    ensures
        map_of(entries).contains_key(key) <==> exists|j: int|
            0 <= j < entries.len() && (#[trigger] entries[j]).0 == key,
        0 <= i < entries.len() && (forall|j: int|
            i < j < entries.len() ==> (#[trigger] entries[j]).0 != entries[i].0) ==> map_of(
            entries,
        ).contains_pair(entries[i].0, entries[i].1),
    decreases entries.len(),
{
    lemma_map_of_contains(entries, key);
    if 0 <= i < entries.len() && (forall|j: int|
        i < j < entries.len() ==> (#[trigger] entries[j]).0 != entries[i].0) {
        let rest = entries.drop_last();
        if i < rest.len() {
            assert(entries[entries.len() - 1].0 != entries[i].0);
            assert forall|j: int| i < j < rest.len() implies (#[trigger] rest[j]).0
                != rest[i].0 by {
                assert(rest[j] == entries[j]);
            }
            lemma_the_last_assignment_counts(rest, i, key);
        }
    }
}

} // verus!
