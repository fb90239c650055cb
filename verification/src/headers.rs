//! The header mapping shared by both records.

use vstd::prelude::*;

verus! {

/// The mapping that a list of name/value pairs denotes when it is read from
/// left to right, a later pair replacing an earlier one of the same name.
pub open spec fn pairs_to_map(pairs: Seq<(Seq<char>, Seq<char>)>) -> Map<Seq<char>, Seq<char>>
    decreases pairs.len(),
{
    if pairs.len() == 0 {
        Map::empty()
    } else {
        pairs_to_map(pairs.drop_last()).insert(pairs.last().0, pairs.last().1)
    }
}

/// No name stands at two places of the list.
pub open spec fn distinct_names(pairs: Seq<(Seq<char>, Seq<char>)>) -> bool {
    forall|i: int, j: int| 0 <= i < j < pairs.len() ==> pairs[i].0 != pairs[j].0
}

/// A list of pairs denotes a mapping with finitely many names.
pub proof fn lemma_pairs_to_map_finite(pairs: Seq<(Seq<char>, Seq<char>)>)
    ensures
        pairs_to_map(pairs).dom().finite(),
    decreases pairs.len(),
{
    if pairs.len() > 0 {
        lemma_pairs_to_map_finite(pairs.drop_last());
    }
}

/// The names of the mapping are exactly the names that stand in the list.
pub proof fn lemma_pairs_to_map_names(pairs: Seq<(Seq<char>, Seq<char>)>, name: Seq<char>)
    ensures
        pairs_to_map(pairs).contains_key(name) <==> exists|i: int|
            0 <= i < pairs.len() && (#[trigger] pairs[i]).0 == name,
    decreases pairs.len(),
{
    if pairs.len() > 0 {
        let init = pairs.drop_last();
        lemma_pairs_to_map_names(init, name);
        if pairs_to_map(pairs).contains_key(name) {
            if pairs.last().0 == name {
                assert(pairs[pairs.len() - 1].0 == name);
            } else {
                let i = choose|i: int| 0 <= i < init.len() && (#[trigger] init[i]).0 == name;
                assert(pairs[i].0 == name);
            }
        }
        if exists|i: int| 0 <= i < pairs.len() && (#[trigger] pairs[i]).0 == name {
            let i = choose|i: int| 0 <= i < pairs.len() && (#[trigger] pairs[i]).0 == name;
            if i < init.len() {
                assert(init[i].0 == name);
            }
        }
    }
}

/// Where no name is repeated, each pair of the list is an entry of the mapping.
pub proof fn lemma_pairs_to_map_entry(pairs: Seq<(Seq<char>, Seq<char>)>, i: int)
    requires
        distinct_names(pairs),
        0 <= i < pairs.len(),
    ensures
        pairs_to_map(pairs).contains_key(pairs[i].0),
        pairs_to_map(pairs)[pairs[i].0] == pairs[i].1,
    decreases pairs.len(),
{
    if i < pairs.len() - 1 {
        let init = pairs.drop_last();
        assert(distinct_names(init)) by {
            assert forall|a: int, b: int| 0 <= a < b < init.len() implies init[a].0 != init[b].0 by {
                assert(pairs[a].0 != pairs[b].0);
            }
        }
        lemma_pairs_to_map_entry(init, i);
        assert(pairs[i].0 != pairs[pairs.len() - 1].0);
    }
}

/// Where no name is repeated, the mapping has as many entries as the list has pairs.
pub proof fn lemma_pairs_to_map_len(pairs: Seq<(Seq<char>, Seq<char>)>)
    requires
        distinct_names(pairs),
    ensures
        pairs_to_map(pairs).dom().finite(),
        pairs_to_map(pairs).len() == pairs.len(),
    decreases pairs.len(),
{
    lemma_pairs_to_map_finite(pairs);
    if pairs.len() > 0 {
        let init = pairs.drop_last();
        assert(distinct_names(init)) by {
            assert forall|a: int, b: int| 0 <= a < b < init.len() implies init[a].0 != init[b].0 by {
                assert(pairs[a].0 != pairs[b].0);
            }
        }
        lemma_pairs_to_map_len(init);
        lemma_pairs_to_map_names(init, pairs.last().0);
        if pairs_to_map(init).contains_key(pairs.last().0) {
            let i = choose|i: int| 0 <= i < init.len() && (#[trigger] init[i]).0 == pairs.last().0;
            assert(pairs[i].0 != pairs[pairs.len() - 1].0);
        }
    }
}

/// Where no name is repeated, replacing the value of one pair in the list is
/// inserting that value under the pair's name in the mapping.
pub proof fn lemma_pairs_to_map_replace(
    pairs: Seq<(Seq<char>, Seq<char>)>,
    i: int,
    value: Seq<char>,
)
    requires
        distinct_names(pairs),
        0 <= i < pairs.len(),
    ensures
        distinct_names(pairs.update(i, (pairs[i].0, value))),
        pairs_to_map(pairs.update(i, (pairs[i].0, value))) == pairs_to_map(pairs).insert(
            pairs[i].0,
            value,
        ),
    decreases pairs.len(),
{
    let name = pairs[i].0;
    let replaced = pairs.update(i, (name, value));
    let init = pairs.drop_last();
    assert(distinct_names(replaced)) by {
        assert forall|a: int, b: int| 0 <= a < b < replaced.len() implies replaced[a].0
            != replaced[b].0 by {
            assert(pairs[a].0 != pairs[b].0);
        }
    }
    if i == pairs.len() - 1 {
        assert(replaced.drop_last() =~= init);
        assert(pairs_to_map(replaced) =~= pairs_to_map(pairs).insert(name, value));
    } else {
        assert(distinct_names(init)) by {
            assert forall|a: int, b: int| 0 <= a < b < init.len() implies init[a].0 != init[b].0 by {
                assert(pairs[a].0 != pairs[b].0);
            }
        }
        lemma_pairs_to_map_replace(init, i, value);
        assert(replaced.drop_last() =~= init.update(i, (name, value)));
        assert(pairs[i].0 != pairs[pairs.len() - 1].0);
        assert(pairs_to_map(replaced) =~= pairs_to_map(pairs).insert(name, value));
    }
}

/// A mapping from header names to header values.
///
/// Each name is held once. Inserting under a name that is already present
/// replaces its value, so the mapping never grows by a repeated name.
pub struct Headers {
    entries: Vec<(String, String)>,
}

impl View for Headers {
    type V = Map<Seq<char>, Seq<char>>;

    closed spec fn view(&self) -> Map<Seq<char>, Seq<char>> {
        pairs_to_map(self.entries.deep_view())
    }
}

impl Headers {
    #[verifier::type_invariant]
    spec fn names_are_distinct(self) -> bool {
        distinct_names(self.entries.deep_view())
    }

    /// Every header mapping has finitely many names.
    pub proof fn lemma_finite(self)
        ensures
            self@.dom().finite(),
    {
        lemma_pairs_to_map_finite(self.entries.deep_view());
    }

    /// An empty mapping.
    pub fn new() -> (headers: Headers)
        ensures
            headers@ == Map::<Seq<char>, Seq<char>>::empty(),
    {
        let headers = Headers { entries: Vec::new() };
        assert(headers.entries.deep_view() =~= Seq::empty());
        headers
    }

    /// The number of names in the mapping.
    pub fn len(&self) -> (count: usize)
        ensures
            self@.dom().finite(),
            count == self@.len(),
    {
        proof {
            use_type_invariant(self);
            lemma_pairs_to_map_len(self.entries.deep_view());
        }
        self.entries.len()
    }

    /// The place of `name` in the list of entries, if it has one.
    fn position(&self, name: &String) -> (at: Option<usize>)
        ensures
            match at {
                Some(i) => i < self.entries.len() && self.entries.deep_view()[i as int].0 == name@,
                None => forall|i: int|
                    0 <= i < self.entries.len() ==> (#[trigger] self.entries.deep_view()[i]).0
                        != name@,
            },
    {
        let mut i: usize = 0;
        while i < self.entries.len()
            invariant
                i <= self.entries.len(),
                forall|j: int| 0 <= j < i ==> (#[trigger] self.entries.deep_view()[j]).0 != name@,
            decreases self.entries.len() - i,
        {
            if self.entries[i].0 == *name {
                return Some(i);
            }
            i += 1;
        }
        None
    }

    /// The value held under `name`, if the mapping has that name.
    pub fn get(&self, name: &String) -> (found: Option<&String>)
        ensures
            match found {
                Some(value) => self@.contains_key(name@) && value@ == self@[name@],
                None => !self@.contains_key(name@),
            },
    {
        proof {
            use_type_invariant(self);
            lemma_pairs_to_map_names(self.entries.deep_view(), name@);
        }
        match self.position(name) {
            Some(i) => {
                proof {
                    lemma_pairs_to_map_entry(self.entries.deep_view(), i as int);
                }
                Some(&self.entries[i].1)
            },
            None => None,
        }
    }

    /// Puts `value` under `name`, replacing the value that the name had, and
    /// returns the replaced value. All other names keep their values.
    pub fn insert(&mut self, name: String, value: String) -> (previous: Option<String>)
        ensures
            final(self)@ == old(self)@.insert(name@, value@),
            previous.deep_view() == (if old(self)@.contains_key(name@) {
                Some(old(self)@[name@])
            } else {
                None
            }),
    {
        proof {
            use_type_invariant(&*self);
            lemma_pairs_to_map_names(self.entries.deep_view(), name@);
        }
        let ghost before = self.entries.deep_view();
        let at = self.position(&name);
        let mut entries: Vec<(String, String)> = Vec::new();
        std::mem::swap(&mut entries, &mut self.entries);
        let previous = match at {
            Some(i) => {
                proof {
                    lemma_pairs_to_map_entry(before, i as int);
                    lemma_pairs_to_map_replace(before, i as int, value@);
                }
                let replaced = entries[i].1.clone();
                entries.set(i, (name, value));
                assert(entries.deep_view() =~= before.update(i as int, (name@, value@)));
                Some(replaced)
            },
            None => {
                entries.push((name, value));
                assert(entries.deep_view() =~= before.push((name@, value@)));
                assert(entries.deep_view().drop_last() =~= before);
                assert(distinct_names(entries.deep_view()));
                None
            },
        };
        self.entries = entries;
        previous
    }

    /// A copy of every entry, one pair for each name of the mapping.
    pub fn to_vec(&self) -> (pairs: Vec<(String, String)>)
        ensures
            distinct_names(pairs.deep_view()),
            pairs_to_map(pairs.deep_view()) == self@,
            pairs.len() == self@.len(),
    {
        proof {
            use_type_invariant(self);
            lemma_pairs_to_map_len(self.entries.deep_view());
        }
        let mut pairs: Vec<(String, String)> = Vec::new();
        let mut i: usize = 0;
        while i < self.entries.len()
            invariant
                i <= self.entries.len(),
                pairs.len() == i,
                pairs.deep_view() == self.entries.deep_view().take(i as int),
            decreases self.entries.len() - i,
        {
            let name = self.entries[i].0.clone();
            let value = self.entries[i].1.clone();
            pairs.push((name, value));
            i += 1;
            assert(pairs.deep_view() =~= self.entries.deep_view().take(i as int));
        }
        assert(pairs.deep_view() =~= self.entries.deep_view());
        pairs
    }
}

} // verus!
