//! The semi-structured document model shared by the pipeline: a `Document`
//! is a flat mapping from field names to `FieldValue`s. Songs carry two of
//! them (the fetched source section and the derived section), and the
//! configuration supplies per-module settings in the same shape.

use vstd::prelude::*;
use crate::text::str_eq;
use vstd::pervasive::VecAdditionalExecFns;

verus! {

/// The mathematical value of a field: what a `FieldValue` denotes.
pub enum SpecVal {
    Null,
    Bool(bool),
    Num(u64),
    Text(Seq<char>),
    List(Seq<Seq<char>>),
}

/// A single field value. Numbers are unsigned (track numbers, years,
/// counts); lists hold plain strings (e.g. extra downloader arguments).
#[derive(Debug, PartialEq)]
pub enum FieldValue {
    Null,
    Bool(bool),
    Num(u64),
    Text(String),
    List(Vec<String>),
}

impl FieldValue {
    /// The denotation of this value.
    pub open spec fn view(&self) -> SpecVal {
        match self {
            FieldValue::Null => SpecVal::Null,
            FieldValue::Bool(b) => SpecVal::Bool(*b),
            FieldValue::Num(n) => SpecVal::Num(*n),
            FieldValue::Text(s) => SpecVal::Text(s@),
            FieldValue::List(items) => SpecVal::List(items@.map_values(|s: String| s@)),
        }
    }

    /// An equal copy of this value.
    pub fn duplicate(&self) -> (r: FieldValue)
        ensures
            r@ == self@,
    {
        match self {
            FieldValue::Null => FieldValue::Null,
            FieldValue::Bool(b) => FieldValue::Bool(*b),
            FieldValue::Num(n) => FieldValue::Num(*n),
            FieldValue::Text(s) => FieldValue::Text(s.clone()),
            FieldValue::List(items) => {
                let mut copy: Vec<String> = Vec::new();
                let mut i: usize = 0;
                while i < items.len()
                    invariant
                        0 <= i <= items@.len(),
                        copy@.len() == i,
                        forall|j: int| 0 <= j < i ==> copy@[j] == items@[j],
                    decreases items@.len() - i,
                {
                    copy.push(items[i].clone());
                    i = i + 1;
                }
                proof {
                    assert(copy@ =~= items@);
                    assert(copy@.map_values(|s: String| s@) =~= items@.map_values(
                        |s: String| s@,
                    ));
                }
                FieldValue::List(copy)
            },
        }
    }
}

/// One named field of a document.
struct Entry {
    key: String,
    value: FieldValue,
}

/// A flat, ordered collection of named fields with pairwise distinct
/// names. Viewed as a map from field name to denoted value; the entry
/// order stays observable, since settings are applied in the order they
/// were written.
pub struct Document {
    entries: Vec<Entry>,
}

impl Document {
    /// The names of the fields, in entry order.
    pub closed spec fn keys_in_order(&self) -> Seq<Seq<char>> {
        self.entries@.map_values(|e: Entry| e.key@)
    }

    /// The denoted values, in entry order.
    pub closed spec fn values_in_order(&self) -> Seq<SpecVal> {
        self.entries@.map_values(|e: Entry| e.value@)
    }

    /// The mapping induced by parallel key and value sequences; later
    /// entries win, though a `Document` never has a repeated key.
    pub open spec fn map_of(keys: Seq<Seq<char>>, vals: Seq<SpecVal>) -> Map<Seq<char>, SpecVal>
        decreases keys.len(),
    {
        if keys.len() == 0 || keys.len() != vals.len() {
            Map::empty()
        } else {
            Self::map_of(keys.drop_last(), vals.drop_last()).insert(keys.last(), vals.last())
        }
    }

    /// The document as a mapping from field name to value.
    pub open spec fn view(&self) -> Map<Seq<char>, SpecVal> {
        Self::map_of(self.keys_in_order(), self.values_in_order())
    }

    /// Field names are pairwise distinct. Constructors establish this and
    /// every method preserves it.
    pub open spec fn wf(&self) -> bool {
        forall|i: int, j: int|
            0 <= i < j < self.keys_in_order().len() ==> (#[trigger] self.keys_in_order()[i]) != (
            #[trigger] self.keys_in_order()[j])
    }

    /// The empty document.
    pub fn new() -> (r: Document)
        ensures
            r.wf(),
            r@ == Map::<Seq<char>, SpecVal>::empty(),
            r.keys_in_order() == Seq::<Seq<char>>::empty(),
    {
        let r = Document { entries: Vec::new() };
        proof {
            assert(r.keys_in_order() =~= Seq::<Seq<char>>::empty());
        }
        r
    }

    /// How many fields the document has.
    pub fn len(&self) -> (n: usize)
        ensures
            n == self.keys_in_order().len(),
    {
        self.entries.len()
    }

    /// The field name at an entry position.
    pub fn key_at(&self, i: usize) -> (k: &String)
        requires
            i < self.keys_in_order().len(),
        ensures
            k@ == self.keys_in_order()[i as int],
    {
        &self.entries[i].key
    }

    /// The field value at an entry position.
    pub fn value_at(&self, i: usize) -> (v: &FieldValue)
        requires
            i < self.keys_in_order().len(),
        ensures
            v@ == self.values_in_order()[i as int],
    {
        &self.entries[i].value
    }

    /// Looks a field up by name.
    pub fn get(&self, key: &str) -> (r: Option<&FieldValue>)
        requires
            self.wf(),
        ensures
            match r {
                Some(v) => self@.contains_key(key@) && v@ == self@[key@],
                None => !self@.contains_key(key@),
            },
    {
        proof {
            lemma_map_of_props(self.keys_in_order(), self.values_in_order());
        }
        let mut i: usize = 0;
        let n = self.entries.len();
        while i < n
            invariant
                0 <= i <= n,
                n == self.keys_in_order().len(),
                forall|j: int| 0 <= j < i ==> self.keys_in_order()[j] != key@,
            decreases n - i,
        {
            if str_eq(self.entries[i].key.as_str(), key) {
                proof {
                    assert(self.keys_in_order()[i as int] == key@);
                    assert(self@.contains_key(key@));
                    assert(self@[key@] == self.values_in_order()[i as int]);
                }
                return Some(&self.entries[i].value);
            }
            i = i + 1;
        }
        None
    }

    /// Writes a field: overwrites the value in place if the name is
    /// present, appends a fresh entry otherwise.
    pub fn set(&mut self, key: &str, value: FieldValue)
        requires
            old(self).wf(),
        ensures
            final(self).wf(),
            final(self)@ == old(self)@.insert(key@, value@),
            old(self)@.contains_key(key@) ==> {
                &&& final(self).keys_in_order() == old(self).keys_in_order()
                &&& exists|j: int|
                    0 <= j < old(self).keys_in_order().len() && old(self).keys_in_order()[j]
                        == key@ && final(self).values_in_order() == old(
                        self,
                    ).values_in_order().update(j, value@)
            },
            !old(self)@.contains_key(key@) ==> {
                &&& final(self).keys_in_order() == old(self).keys_in_order().push(key@)
                &&& final(self).values_in_order() == old(self).values_in_order().push(value@)
            },
    {
        proof {
            lemma_map_of_props(old(self).keys_in_order(), old(self).values_in_order());
        }
        let ghost old_keys = self.keys_in_order();
        let ghost old_vals = self.values_in_order();
        let mut entries: Vec<Entry> = Vec::new();
        core::mem::swap(&mut entries, &mut self.entries);
        let mut i: usize = 0;
        let n = entries.len();
        while i < n
            invariant
                0 <= i <= n,
                n == entries@.len(),
                entries@.map_values(|e: Entry| e.key@) == old_keys,
                entries@.map_values(|e: Entry| e.value@) == old_vals,
                forall|j: int| 0 <= j < i ==> old_keys[j] != key@,
            decreases n - i,
        {
            if str_eq(entries[i].key.as_str(), key) {
                proof {
                    assert(old_keys[i as int] == key@);
                }
                entries.set(i, Entry { key: key.to_owned(), value });
                proof {
                    assert(entries@.map_values(|e: Entry| e.key@) =~= old_keys);
                    assert(entries@.map_values(|e: Entry| e.value@) =~= old_vals.update(
                        i as int,
                        value@,
                    ));
                }
                self.entries = entries;
                proof {
                    assert forall|a: int, b: int| 0 <= a < b < old_keys.len() implies (
                    #[trigger] old_keys[a]) != (#[trigger] old_keys[b]) by {
                        assert(old(self).keys_in_order()[a] != old(self).keys_in_order()[b]);
                    }
                    lemma_map_of_update(old_keys, old_vals, i as int, value@);
                    assert(final(self)@ == old(self)@.insert(key@, value@));
                    assert(old(self)@.contains_key(key@));
                }
                return ;
            }
            i = i + 1;
        }
        entries.push(Entry { key: key.to_owned(), value });
        proof {
            assert(entries@.map_values(|e: Entry| e.key@) =~= old_keys.push(key@));
            assert(entries@.map_values(|e: Entry| e.value@) =~= old_vals.push(value@));
        }
        self.entries = entries;
        proof {
            assert(!old(self)@.contains_key(key@));
            let new_keys = old_keys.push(key@);
            assert forall|a: int, b: int| 0 <= a < b < new_keys.len() implies (
            #[trigger] new_keys[a]) != (#[trigger] new_keys[b]) by {
                if b < old_keys.len() {
                    assert(old_keys[a] != old_keys[b]);
                } else {
                    assert(new_keys[b] == key@);
                    assert(old_keys[a] != key@);
                }
            }
            assert(final(self)@ == Self::map_of(old_keys.push(key@), old_vals.push(value@)));
            assert(old_keys.push(key@).drop_last() =~= old_keys);
            assert(old_vals.push(value@).drop_last() =~= old_vals);
            assert(final(self)@ == old(self)@.insert(key@, value@));
        }
    }
}

/// What the map view of a document says, stated over the parallel key and
/// value sequences: each entry is present under its name, and nothing else
/// is.
pub proof fn lemma_doc_view(d: &Document)
    requires
        d.wf(),
    ensures
        d.values_in_order().len() == d.keys_in_order().len(),
        forall|i: int, j: int|
            0 <= i < j < d.keys_in_order().len() ==> (#[trigger] d.keys_in_order()[i]) != (
            #[trigger] d.keys_in_order()[j]),
        forall|x: Seq<char>|
            d@.contains_key(x) <==> exists|i: int|
                0 <= i < d.keys_in_order().len() && d.keys_in_order()[i] == x,
        forall|i: int|
            0 <= i < d.keys_in_order().len() ==> d@.contains_key(#[trigger] d.keys_in_order()[i])
                && d@[d.keys_in_order()[i]] == d.values_in_order()[i],
{
    lemma_map_of_props(d.keys_in_order(), d.values_in_order());
}

/// The induced map contains exactly the named entries. Requires pairwise
/// distinct keys for the per-index value equations.
proof fn lemma_map_of_props(keys: Seq<Seq<char>>, vals: Seq<SpecVal>)
    requires
        keys.len() == vals.len(),
        forall|i: int, j: int|
            0 <= i < j < keys.len() ==> (#[trigger] keys[i]) != (#[trigger] keys[j]),
    ensures
        forall|x: Seq<char>|
            Document::map_of(keys, vals).contains_key(x) <==> exists|i: int|
                0 <= i < keys.len() && keys[i] == x,
        forall|i: int|
            0 <= i < keys.len() ==> Document::map_of(keys, vals).contains_key(
                #[trigger] keys[i],
            ) && Document::map_of(keys, vals)[keys[i]] == vals[i],
    decreases keys.len(),
{
    if keys.len() > 0 {
        lemma_map_of_props(keys.drop_last(), vals.drop_last());
        let m = Document::map_of(keys, vals);
        let md = Document::map_of(keys.drop_last(), vals.drop_last());
        let last = (keys.len() - 1) as int;
        assert(m == md.insert(keys.last(), vals.last()));
        assert forall|x: Seq<char>| m.contains_key(x) implies exists|i: int|
            0 <= i < keys.len() && keys[i] == x by {
            if x == keys.last() {
                assert(keys[last] == x);
            } else {
                let i = choose|i: int|
                    0 <= i < keys.drop_last().len() && keys.drop_last()[i] == x;
                assert(keys[i] == x);
            }
        }
        assert forall|x: Seq<char>|
            (exists|i: int| 0 <= i < keys.len() && keys[i] == x) implies m.contains_key(x) by {
            let i = choose|i: int| 0 <= i < keys.len() && keys[i] == x;
            if i == last {
                assert(m.contains_key(keys.last()));
            } else {
                assert(keys.drop_last()[i] == x);
                assert(md.contains_key(x));
            }
        }
        assert forall|i: int| 0 <= i < keys.len() implies m.contains_key(#[trigger] keys[i])
            && m[keys[i]] == vals[i] by {
            if i == last {
                assert(m[keys.last()] == vals.last());
            } else {
                assert(keys.drop_last()[i] == keys[i]);
                assert(vals.drop_last()[i] == vals[i]);
                assert(md.contains_key(keys[i]) && md[keys[i]] == vals[i]);
                assert(keys[i] != keys[last]);
                assert(m[keys[i]] == md[keys[i]]);
            }
        }
    }
}

/// Updating the value at one entry updates the induced map at that key.
proof fn lemma_map_of_update(keys: Seq<Seq<char>>, vals: Seq<SpecVal>, j: int, v: SpecVal)
    requires
        keys.len() == vals.len(),
        forall|i: int, j: int|
            0 <= i < j < keys.len() ==> (#[trigger] keys[i]) != (#[trigger] keys[j]),
        0 <= j < keys.len(),
    ensures
        Document::map_of(keys, vals.update(j, v)) == Document::map_of(keys, vals).insert(
            keys[j],
            v,
        ),
    decreases keys.len(),
{
    let updated = vals.update(j, v);
    assert(updated.len() == keys.len());
    if j == keys.len() - 1 {
        assert(updated.drop_last() =~= vals.drop_last());
        assert(updated.last() == v);
        assert(Document::map_of(keys, updated) =~= Document::map_of(keys, vals).insert(
            keys[j],
            v,
        ));
    } else {
        assert(updated.drop_last() =~= vals.drop_last().update(j, v));
        lemma_map_of_update(keys.drop_last(), vals.drop_last(), j, v);
        assert(keys[j] != keys.last());
        assert(Document::map_of(keys, updated) =~= Document::map_of(keys, vals).insert(
            keys[j],
            v,
        ));
    }
}

} // verus!
