//! A mapping from attribute key to value.

use crate::text::same_text;
use vstd::prelude::*;

verus! {

/// One entry of a mapping: a key and its value.
#[derive(Debug, PartialEq, Eq)]
pub struct Attribute {
    pub key: String,
    pub value: String,
}

/// A mapping from attribute key to value, held as a list in which no two
/// entries share a key.
pub struct Attributes {
    list: Vec<Attribute>,
}

/// The key of the entry at position `at`.
pub open spec fn key_at(attributes: Seq<Attribute>, at: int) -> Seq<char> {
    attributes[at].key@
}

/// Whether no two entries share a key.
pub open spec fn keys_differ(attributes: Seq<Attribute>) -> bool {
    forall|i: int, j: int|
        0 <= i < attributes.len() && 0 <= j < attributes.len() && i != j ==> key_at(attributes, i)
            != key_at(attributes, j)
}

/// Whether some entry has the key `key`.
pub open spec fn has_key(attributes: Seq<Attribute>, key: Seq<char>) -> bool {
    exists|i: int| 0 <= i < attributes.len() && key_at(attributes, i) == key
}

/// The mapping that a list of attributes with distinct keys stands for.
pub open spec fn as_mapping(attributes: Seq<Attribute>) -> Map<Seq<char>, Seq<char>> {
    Map::new(
        |key: Seq<char>| has_key(attributes, key),
        |key: Seq<char>|
            attributes[choose|i: int| 0 <= i < attributes.len() && key_at(attributes, i) == key].value@,
    )
}

/// In a list with distinct keys, each entry is what the mapping holds under
/// its key.
pub proof fn lemma_mapping_at(attributes: Seq<Attribute>, at: int)
    requires
        keys_differ(attributes),
        0 <= at < attributes.len(),
    ensures
        as_mapping(attributes).contains_key(key_at(attributes, at)),
        as_mapping(attributes)[key_at(attributes, at)] == attributes[at].value@,
{
    let key = key_at(attributes, at);
    let chosen = choose|i: int| 0 <= i < attributes.len() && key_at(attributes, i) == key;
    assert(chosen == at);
}

/// Replacing the entry that has a key gives that key the new value.
proof fn lemma_mapping_replaced(attributes: Seq<Attribute>, at: int, entry: Attribute)
    requires
        keys_differ(attributes),
        0 <= at < attributes.len(),
        key_at(attributes, at) == entry.key@,
    ensures
        keys_differ(attributes.update(at, entry)),
        as_mapping(attributes.update(at, entry)) == as_mapping(attributes).insert(
            entry.key@,
            entry.value@,
        ),
{
    let after = attributes.update(at, entry);
    assert forall|i: int| 0 <= i < after.len() implies key_at(after, i) == key_at(
        attributes,
        i,
    ) by {}
    assert(keys_differ(after));
    assert forall|key: Seq<char>| has_key(after, key) == has_key(attributes, key) by {
        if has_key(attributes, key) {
            let i = choose|i: int| 0 <= i < attributes.len() && key_at(attributes, i) == key;
            assert(key_at(after, i) == key);
        }
        if has_key(after, key) {
            let i = choose|i: int| 0 <= i < after.len() && key_at(after, i) == key;
            assert(key_at(attributes, i) == key);
        }
    }
    assert(has_key(attributes, entry.key@));
    assert forall|key: Seq<char>| has_key(after, key) implies #[trigger] as_mapping(after)[key]
        == as_mapping(attributes).insert(entry.key@, entry.value@)[key] by {
        let i = choose|i: int| 0 <= i < after.len() && key_at(after, i) == key;
        lemma_mapping_at(after, i);
        lemma_mapping_at(attributes, i);
    }
    assert(as_mapping(after) =~= as_mapping(attributes).insert(entry.key@, entry.value@));
}

/// Appending an entry with a key that the list lacks adds that key.
proof fn lemma_mapping_pushed(attributes: Seq<Attribute>, entry: Attribute)
    requires
        keys_differ(attributes),
        !has_key(attributes, entry.key@),
    ensures
        keys_differ(attributes.push(entry)),
        as_mapping(attributes.push(entry)) == as_mapping(attributes).insert(
            entry.key@,
            entry.value@,
        ),
{
    let after = attributes.push(entry);
    assert forall|i: int| 0 <= i < attributes.len() implies key_at(after, i) == key_at(
        attributes,
        i,
    ) by {}
    assert(key_at(after, attributes.len() as int) == entry.key@);
    assert forall|i: int, j: int|
        0 <= i < after.len() && 0 <= j < after.len() && i != j implies key_at(after, i) != key_at(
        after,
        j,
    ) by {
        if i < attributes.len() && j < attributes.len() {
            assert(key_at(attributes, i) != key_at(attributes, j));
        } else if i < attributes.len() {
            assert(key_at(attributes, i) != entry.key@);
        } else {
            assert(key_at(attributes, j) != entry.key@);
        }
    }
    assert forall|key: Seq<char>| has_key(after, key) == (has_key(attributes, key) || key
        == entry.key@) by {
        if has_key(attributes, key) {
            let i = choose|i: int| 0 <= i < attributes.len() && key_at(attributes, i) == key;
            assert(key_at(after, i) == key);
        }
        if has_key(after, key) {
            let i = choose|i: int| 0 <= i < after.len() && key_at(after, i) == key;
            if i < attributes.len() {
                assert(key_at(attributes, i) == key);
            }
        }
    }
    assert forall|key: Seq<char>| has_key(after, key) implies #[trigger] as_mapping(after)[key]
        == as_mapping(attributes).insert(entry.key@, entry.value@)[key] by {
        let i = choose|i: int| 0 <= i < after.len() && key_at(after, i) == key;
        lemma_mapping_at(after, i);
        if i < attributes.len() {
            lemma_mapping_at(attributes, i);
        }
    }
    assert(as_mapping(after) =~= as_mapping(attributes).insert(entry.key@, entry.value@));
}

impl View for Attributes {
    type V = Map<Seq<char>, Seq<char>>;

    closed spec fn view(&self) -> Map<Seq<char>, Seq<char>> {
        as_mapping(self.list@)
    }
}

impl Attributes {
    #[verifier::type_invariant]
    spec fn distinct_keys(self) -> bool {
        keys_differ(self.list@)
    }

    /// The empty mapping.
    pub fn new() -> (attributes: Attributes)
        ensures
            attributes@ == Map::<Seq<char>, Seq<char>>::empty(),
    {
        let attributes = Attributes { list: Vec::new() };
        assert(as_mapping(attributes.list@) =~= Map::empty());
        attributes
    }

    fn position_of(&self, key: &str) -> (found: Option<usize>)
        ensures
            match found {
                Some(at) => at < self.list@.len() && key_at(self.list@, at as int) == key@,
                None => !has_key(self.list@, key@),
            },
    {
        let mut at: usize = 0;
        while at < self.list.len()
            invariant
                at <= self.list@.len(),
                forall|j: int| 0 <= j < at ==> key_at(self.list@, j) != key@,
            decreases self.list@.len() - at,
        {
            if same_text(self.list[at].key.as_str(), key) {
                return Some(at);
            }
            at = at + 1;
        }
        None
    }

    /// Gives `key` the value `value`, in place of any value it had.
    pub fn set(&mut self, key: String, value: String)
        ensures
            final(self)@ == old(self)@.insert(key@, value@),
    {
        proof {
            use_type_invariant(&*self);
        }
        let found = self.position_of(key.as_str());
        let entry = Attribute { key, value };
        let mut list: Vec<Attribute> = Vec::new();
        core::mem::swap(&mut self.list, &mut list);
        match found {
            Some(at) => {
                proof {
                    lemma_mapping_replaced(list@, at as int, entry);
                }
                list.set(at, entry);
            },
            None => {
                proof {
                    lemma_mapping_pushed(list@, entry);
                }
                list.push(entry);
            },
        }
        self.list = list;
    }

    /// The value of `key`, if the mapping has that key.
    pub fn get(&self, key: &str) -> (value: Option<String>)
        ensures
            match value {
                Some(text) => self@.contains_key(key@) && self@[key@] == text@,
                None => !self@.contains_key(key@),
            },
    {
        proof {
            use_type_invariant(self);
        }
        match self.position_of(key) {
            Some(at) => {
                proof {
                    lemma_mapping_at(self.list@, at as int);
                }
                Some(self.list[at].value.clone())
            },
            None => None,
        }
    }

    /// The entries of the mapping, each key once.
    pub fn entries(&self) -> (list: &Vec<Attribute>)
        ensures
            keys_differ(list@),
            as_mapping(list@) == self@,
    {
        proof {
            use_type_invariant(self);
        }
        &self.list
    }

    /// Sets every entry of `other` in this mapping: where both have a key,
    /// the value of `other` stays.
    pub fn merge(&mut self, other: &Attributes)
        ensures
            final(self)@ == old(self)@.union_prefer_right(other@),
    {
        let list = other.entries();
        let mut at: usize = 0;
        proof {
            assert(list@.take(0) =~= Seq::empty());
            assert(as_mapping(list@.take(0)) =~= Map::empty());
            assert(old(self)@.union_prefer_right(as_mapping(list@.take(0))) =~= old(self)@);
        }
        while at < list.len()
            invariant
                at <= list@.len(),
                keys_differ(list@),
                self@ == old(self)@.union_prefer_right(as_mapping(list@.take(at as int))),
            decreases list@.len() - at,
        {
            proof {
                let seen = list@.take(at as int);
                assert(list@.take(at as int + 1) =~= seen.push(list@[at as int]));
                assert forall|i: int| 0 <= i < seen.len() implies key_at(seen, i) == key_at(
                    list@,
                    i,
                ) by {}
                assert(keys_differ(seen));
                assert(!has_key(seen, list@[at as int].key@)) by {
                    if has_key(seen, list@[at as int].key@) {
                        let i = choose|i: int|
                            0 <= i < seen.len() && key_at(seen, i) == list@[at as int].key@;
                        assert(key_at(list@, i) == key_at(list@, at as int));
                    }
                }
                lemma_mapping_pushed(seen, list@[at as int]);
                assert(old(self)@.union_prefer_right(as_mapping(seen)).insert(
                    list@[at as int].key@,
                    list@[at as int].value@,
                ) =~= old(self)@.union_prefer_right(
                    as_mapping(seen).insert(list@[at as int].key@, list@[at as int].value@),
                ));
            }
            self.set(list[at].key.clone(), list[at].value.clone());
            at = at + 1;
        }
        proof {
            assert(list@.take(at as int) =~= list@);
        }
    }

    /// A copy of the mapping.
    pub fn copy(&self) -> (copy: Attributes)
        ensures
            copy@ == self@,
    {
        let mut copy = Attributes::new();
        copy.merge(self);
        proof {
            assert(Map::<Seq<char>, Seq<char>>::empty().union_prefer_right(self@) =~= self@);
        }
        copy
    }
}

} // verus!
