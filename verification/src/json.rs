//! Structured values: the executable tree and its mathematical model.
//!
//! A [`Json`] value is a tagged tree (null, boolean, number, text, array,
//! object). Contracts speak of its view, a [`JsonTree`], in which arrays and
//! objects are sequences. An object keeps its entries in insertion order and
//! never holds a key twice.

use vstd::prelude::*;

verus! {

/// `serde_json::Number`, carried through the tree without being read.
#[verifier::external_type_specification]
#[verifier::external_body]
pub struct ExNumber(serde_json::Number);

/// `Number::clone` of serde_json: the copy is the number it was made from.
pub assume_specification[ <serde_json::Number as Clone>::clone ](n: &serde_json::Number) -> (r:
    serde_json::Number)
    ensures
        r == *n,
;

/// The entries of an object in a model: keys with their subtrees, in order.
pub type Entries = Seq<(Seq<char>, JsonTree)>;

/// The mathematical model of a structured value.
pub enum JsonTree {
    Null,
    Bool(bool),
    Number(serde_json::Number),
    Text(Seq<char>),
    Array(Seq<JsonTree>),
    Object(Entries),
}

/// A structured value.
#[derive(Debug, PartialEq, Eq)]
pub enum Json {
    Null,
    Bool(bool),
    Number(serde_json::Number),
    Text(String),
    Array(Vec<Json>),
    Object(JsonObject),
}

/// The entries of an object, in insertion order; no key occurs twice.
#[derive(Debug, PartialEq, Eq)]
pub struct JsonObject {
    entries: Vec<(String, Json)>,
}

/// No two entries share a key.
pub open spec fn distinct_keys(entries: Entries) -> bool {
    forall|i: int, j: int|
        0 <= i < j < entries.len() ==> (#[trigger] entries[i]).0 != (#[trigger] entries[j]).0
}

/// Some entry has this key.
pub open spec fn has_key(entries: Entries, key: Seq<char>) -> bool {
    exists|i: int| 0 <= i < entries.len() && (#[trigger] entries[i]).0 == key
}

/// The position of the first entry under `key`, if there is one.
pub open spec fn key_index(entries: Entries, key: Seq<char>) -> Option<int>
    decreases entries.len(),
{
    if entries.len() == 0 {
        None
    } else {
        match key_index(entries.drop_last(), key) {
            Some(i) => Some(i),
            None => if entries.last().0 == key {
                Some(entries.len() - 1)
            } else {
                None
            },
        }
    }
}

/// What inserting does: the value under an existing key is replaced where it
/// stands, a new key is appended.
pub open spec fn put(entries: Entries, key: Seq<char>, value: JsonTree) -> Entries {
    match key_index(entries, key) {
        Some(i) => entries.update(i, (key, value)),
        None => entries.push((key, value)),
    }
}

/// `key_index` finds the first entry under the key, and reports `None` only
/// when no entry has it.
pub proof fn lemma_key_index(entries: Entries, key: Seq<char>)
    ensures
        match key_index(entries, key) {
            Some(i) => {
                &&& 0 <= i < entries.len()
                &&& entries[i].0 == key
                &&& forall|j: int| 0 <= j < i ==> (#[trigger] entries[j]).0 != key
            },
            None => forall|j: int| 0 <= j < entries.len() ==> (#[trigger] entries[j]).0 != key,
        },
        key_index(entries, key) is Some <==> has_key(entries, key),
    decreases entries.len(),
{
    if entries.len() > 0 {
        let front = entries.drop_last();
        lemma_key_index(front, key);
        assert(forall|j: int| 0 <= j < front.len() ==> front[j] == entries[j]);
        match key_index(front, key) {
            Some(i) => {
                assert(entries[i].0 == key);
            },
            None => {
                if entries.last().0 == key {
                    assert(entries[entries.len() - 1].0 == key);
                }
            },
        }
    }
}

/// Inserting keeps the keys distinct, and changes the length only for a new
/// key.
pub proof fn lemma_put(entries: Entries, key: Seq<char>, value: JsonTree)
    ensures
        distinct_keys(entries) ==> distinct_keys(put(entries, key, value)),
        has_key(entries, key) ==> put(entries, key, value).len() == entries.len(),
        !has_key(entries, key) ==> put(entries, key, value) == entries.push((key, value)),
        has_key(put(entries, key, value), key),
{
    lemma_key_index(entries, key);
    let out = put(entries, key, value);
    match key_index(entries, key) {
        Some(i) => {
            assert(out[i].0 == key);
            if distinct_keys(entries) {
                assert forall|a: int, b: int| 0 <= a < b < out.len() implies (#[trigger] out[a]).0
                    != (#[trigger] out[b]).0 by {
                    assert(out[a].0 == entries[a].0);
                    assert(out[b].0 == entries[b].0);
                }
            }
        },
        None => {
            assert(out[entries.len() as int].0 == key);
            if distinct_keys(entries) {
                assert forall|a: int, b: int| 0 <= a < b < out.len() implies (#[trigger] out[a]).0
                    != (#[trigger] out[b]).0 by {
                    if b < entries.len() {
                        assert(out[a] == entries[a]);
                        assert(out[b] == entries[b]);
                    } else {
                        assert(out[a] == entries[a]);
                    }
                }
            }
        },
    }
}

/// The model of a value.
pub open spec fn tree_of(j: Json) -> JsonTree
    decreases j,
{
    match j {
        Json::Null => JsonTree::Null,
        Json::Bool(b) => JsonTree::Bool(b),
        Json::Number(n) => JsonTree::Number(n),
        Json::Text(s) => JsonTree::Text(s@),
        Json::Array(items) => JsonTree::Array(
            Seq::new(
                items@.len(),
                |i: int|
                    if 0 <= i < items@.len() {
                        tree_of(items@[i])
                    } else {
                        JsonTree::Null
                    },
            ),
        ),
        Json::Object(obj) => JsonTree::Object(entries_of(obj)),
    }
}

/// The model of an object's entries.
pub closed spec fn entries_of(obj: JsonObject) -> Entries
    decreases obj,
{
    Seq::new(
        obj.entries@.len(),
        |i: int|
            if 0 <= i < obj.entries@.len() {
                (obj.entries@[i].0@, tree_of(obj.entries@[i].1))
            } else {
                (Seq::empty(), JsonTree::Null)
            },
    )
}

/// The model of a list of pairs: what `entries_of` gives for an object that
/// holds them.
spec fn pairs_of(pairs: Seq<(String, Json)>) -> Entries {
    Seq::new(pairs.len(), |i: int| (pairs[i].0@, pairs[i].1@))
}

proof fn lemma_entries_are_pairs(obj: JsonObject)
    ensures
        obj@ == pairs_of(obj.entries@),
{
    assert(obj@ =~= pairs_of(obj.entries@));
}

/// The models of a list of values, in order.
pub open spec fn trees_of(items: Seq<Json>) -> Seq<JsonTree> {
    Seq::new(items.len(), |i: int| items[i]@)
}

/// An array's model holds the models of its elements.
pub proof fn lemma_array_view(items: Vec<Json>)
    ensures
        Json::Array(items)@ == JsonTree::Array(trees_of(items@)),
{
    assert(Json::Array(items)@->Array_0 =~= trees_of(items@));
}

impl View for Json {
    type V = JsonTree;

    open spec fn view(&self) -> JsonTree {
        tree_of(*self)
    }
}

impl View for JsonObject {
    type V = Entries;

    open spec fn view(&self) -> Entries {
        entries_of(*self)
    }
}

impl JsonObject {
    #[verifier::type_invariant]
    spec fn well_formed(self) -> bool {
        distinct_keys(entries_of(self))
    }

    /// An object without entries.
    pub fn new() -> (obj: JsonObject)
        ensures
            obj@ == Entries::empty(),
    {
        let obj = JsonObject { entries: Vec::new() };
        assert(obj@ =~= Entries::empty());
        obj
    }

    /// The number of entries. Also tells the caller that the keys are
    /// distinct, which holds of every object.
    pub fn len(&self) -> (n: usize)
        ensures
            n == self@.len(),
            distinct_keys(self@),
    {
        proof {
            use_type_invariant(self);
        }
        self.entries.len()
    }

    /// The key of the entry at `index`.
    pub fn key(&self, index: usize) -> (k: &String)
        requires
            index < self@.len(),
        ensures
            k@ == self@[index as int].0,
    {
        &self.entries[index].0
    }

    /// The value of the entry at `index`.
    pub fn value(&self, index: usize) -> (v: &Json)
        requires
            index < self@.len(),
        ensures
            v@ == self@[index as int].1,
    {
        &self.entries[index].1
    }

    /// The position of the entry under `key`.
    pub fn find(&self, key: &String) -> (found: Option<usize>)
        ensures
            match found {
                Some(i) => key_index(self@, key@) == Some(i as int),
                None => key_index(self@, key@) is None,
            },
    {
        let mut i: usize = 0;
        while i < self.entries.len()
            invariant
                i <= self.entries.len(),
                forall|j: int| 0 <= j < i ==> (#[trigger] self@[j]).0 != key@,
            decreases self.entries.len() - i,
        {
            if self.entries[i].0 == *key {
                proof {
                    lemma_key_index(self@, key@);
                    assert(self@[i as int].0 == key@);
                }
                return Some(i);
            }
            i += 1;
        }
        proof {
            lemma_key_index(self@, key@);
        }
        None
    }

    /// The value under `key`, if the object has the key.
    pub fn get(&self, key: &String) -> (found: Option<&Json>)
        ensures
            match found {
                Some(value) => key_index(self@, key@) matches Some(i) && value@ == self@[i].1,
                None => key_index(self@, key@) is None,
            },
    {
        match self.find(key) {
            Some(i) => {
                proof {
                    lemma_key_index(self@, key@);
                }
                Some(self.value(i))
            },
            None => None,
        }
    }

    /// Appends an entry under a key that the object does not have yet.
    pub(crate) fn append(&mut self, key: String, value: Json)
        requires
            key_index(old(self)@, key@) is None,
        ensures
            final(self)@ == old(self)@.push((key@, value@)),
    {
        proof {
            use_type_invariant(&*self);
            lemma_put(self@, key@, value@);
            lemma_key_index(self@, key@);
            lemma_entries_are_pairs(*self);
        }
        let ghost before = self@;
        let mut entries: Vec<(String, Json)> = Vec::new();
        core::mem::swap(&mut self.entries, &mut entries);
        entries.push((key, value));
        assert(pairs_of(entries@) =~= before.push((key@, value@)));
        proof {
            lemma_entries_are_pairs(JsonObject { entries });
        }
        self.entries = entries;
    }

    /// Puts `value` under `key`: in place of the value that was there, or
    /// as a new last entry.
    pub fn insert(&mut self, key: String, value: Json)
        ensures
            final(self)@ == put(old(self)@, key@, value@),
    {
        proof {
            use_type_invariant(&*self);
            lemma_put(self@, key@, value@);
        }
        let ghost before = self@;
        let found = self.find(&key);
        proof {
            lemma_key_index(before, key@);
            lemma_entries_are_pairs(*self);
        }
        let mut entries: Vec<(String, Json)> = Vec::new();
        core::mem::swap(&mut self.entries, &mut entries);
        match found {
            Some(i) => {
                entries.set(i, (key, value));
            },
            None => {
                entries.push((key, value));
            },
        }
        assert(pairs_of(entries@) =~= put(before, key@, value@));
        proof {
            lemma_entries_are_pairs(JsonObject { entries });
        }
        self.entries = entries;
    }
}

impl Clone for Json {
    fn clone(&self) -> (r: Json)
        ensures
            r@ == self@,
        decreases *self,
    {
        match self {
            Json::Null => Json::Null,
            Json::Bool(b) => Json::Bool(*b),
            Json::Number(n) => Json::Number(n.clone()),
            Json::Text(s) => Json::Text(s.clone()),
            Json::Array(items) => {
                let mut out: Vec<Json> = Vec::new();
                let mut i: usize = 0;
                while i < items.len()
                    invariant
                        *self == Json::Array(*items),
                        i <= items.len(),
                        out.len() == i,
                        forall|k: int| 0 <= k < i ==> (#[trigger] out@[k])@ == items@[k]@,
                    decreases items.len() - i,
                {
                    proof {
                        assert(decreases_to!(*self => self->Array_0));
                        assert(decreases_to!(self->Array_0 => self->Array_0[i as int]));
                    }
                    let c = items[i].clone();
                    out.push(c);
                    i += 1;
                }
                assert(Json::Array(out)@->Array_0 =~= self@->Array_0);
                Json::Array(out)
            },
            Json::Object(obj) => Json::Object(obj.clone()),
        }
    }
}

impl Clone for JsonObject {
    fn clone(&self) -> (r: JsonObject)
        ensures
            r@ == self@,
        decreases *self,
    {
        proof {
            use_type_invariant(self);
        }
        let mut out: Vec<(String, Json)> = Vec::new();
        let mut i: usize = 0;
        while i < self.entries.len()
            invariant
                i <= self.entries.len(),
                out.len() == i,
                forall|k: int|
                    0 <= k < i ==> (#[trigger] out@[k]).0@ == self.entries@[k].0@ && out@[k].1@
                        == self.entries@[k].1@,
            decreases self.entries.len() - i,
        {
            let k = self.entries[i].0.clone();
            let v = self.entries[i].1.clone();
            out.push((k, v));
            i += 1;
        }
        proof {
            lemma_entries_are_pairs(*self);
            lemma_entries_are_pairs(JsonObject { entries: out });
            assert(pairs_of(out@) =~= self@);
        }
        JsonObject { entries: out }
    }
}

} // verus!
