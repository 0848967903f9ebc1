use vstd::prelude::*;

use rustc_hash::{FxBuildHasher, FxHashMap};

use crate::ids::ExprId;
use crate::set::{IndexKey, KeyView};

verus! {

#[verifier::external_type_specification]
#[verifier::external_body]
pub struct ExFxBuildHasher(FxBuildHasher);

/// The map an indexed variable keeps.
pub type KeyMap = FxHashMap<IndexKey, ExprId>;

/// Name for what an `FxHashMap` from keys to expressions holds: each key,
/// by its view, mapped to its expression.
pub uninterp spec fn fx_contents(m: KeyMap) -> Map<KeyView, ExprId>;

/// The contents of an empty map.
pub open spec fn empty_contents() -> Map<KeyView, ExprId> {
    Map::empty()
}

/// `FxHashMap::default()`: an empty map.
#[verifier::external_body]
fn fx_new() -> (m: KeyMap)
    ensures
        fx_contents(m) == empty_contents(),
{
    FxHashMap::default()
}

/// `HashMap::insert`: maps `k` to `v` (replacing what `k` held) and returns
/// the expression `k` held before.
#[verifier::external_body]
fn fx_insert(m: &mut KeyMap, k: IndexKey, v: ExprId) -> (r: Option<ExprId>)
    ensures
        fx_contents(*final(m)) == fx_contents(*old(m)).insert(k@, v),
        r == (if fx_contents(*old(m)).contains_key(k@) {
            Some(fx_contents(*old(m))[k@])
        } else {
            None
        }),
{
    m.insert(k, v)
}

/// `HashMap::len`: the number of keys.
#[verifier::external_body]
fn fx_len(m: &KeyMap) -> (n: usize)
    ensures
        n == fx_contents(*m).len(),
{
    m.len()
}

/// `HashMap::get`: the expression that `k` holds.
#[verifier::external_body]
fn fx_get(m: &KeyMap, k: &IndexKey) -> (r: Option<ExprId>)
    ensures
        r == (if fx_contents(*m).contains_key(k@) {
            Some(fx_contents(*m)[k@])
        } else {
            None
        }),
{
    m.get(k).copied()
}

/// `HashMap::iter`, collected: every key with its expression, once each, in
/// the order the map walks them (which nothing here states).
#[verifier::external_body]
fn fx_pairs(m: &KeyMap) -> (v: Vec<(IndexKey, ExprId)>)
    ensures
        v@.len() == fx_contents(*m).len(),
        forall|i: int|
            0 <= i < v@.len() ==> fx_contents(*m).contains_key((#[trigger] v@[i]).0@)
                && fx_contents(*m)[v@[i].0@] == v@[i].1,
        forall|i: int, j: int| 0 <= i < j < v@.len() ==> (#[trigger] v@[i]).0@ != (#[trigger] v@[j]).0@,
        forall|k: KeyView| #[trigger] fx_contents(*m).contains_key(k) ==> exists|i: int|
            0 <= i < v@.len() && (#[trigger] v@[i]).0@ == k,
{
    m.iter().map(|(k, e)| (k.copy(), *e)).collect()
}

/// Sparse indexed variable: maps an [`IndexKey`] to a single-variable
/// expression.
#[derive(Clone, Debug)]
pub struct IndexedVar {
    entries: KeyMap,
}

impl View for IndexedVar {
    type V = Map<KeyView, ExprId>;

    closed spec fn view(&self) -> Map<KeyView, ExprId> {
        fx_contents(self.entries)
    }
}

impl IndexedVar {
    /// An indexed variable with no entries.
    pub fn new() -> (iv: IndexedVar)
        ensures
            iv@ == empty_contents(),
    {
        IndexedVar { entries: fx_new() }
    }

    /// Binds `key` to the variable expression `e`, returning what `key` was
    /// bound to before.
    pub fn insert(&mut self, key: IndexKey, e: ExprId) -> (prev: Option<ExprId>)
        ensures
            final(self)@ == old(self)@.insert(key@, e),
            prev == (if old(self)@.contains_key(key@) {
                Some(old(self)@[key@])
            } else {
                None
            }),
    {
        fx_insert(&mut self.entries, key, e)
    }

    /// The number of entries.
    pub fn len(&self) -> (n: usize)
        ensures
            n == self@.len(),
    {
        fx_len(&self.entries)
    }

    /// Whether there are no entries.
    pub fn is_empty(&self) -> (b: bool)
        ensures
            b == (self@.len() == 0),
    {
        fx_len(&self.entries) == 0
    }

    /// Every entry, once each.
    pub fn iter(&self) -> (v: Vec<(IndexKey, ExprId)>)
        ensures
            v@.len() == self@.len(),
            forall|i: int, j: int| 0 <= i < j < v@.len() ==> (#[trigger] v@[i]).0@ != (#[trigger] v@[j]).0@,
            forall|i: int|
                0 <= i < v@.len() ==> self@.contains_key((#[trigger] v@[i]).0@) && self@[v@[i].0@]
                    == v@[i].1,
            forall|k: KeyView| #[trigger] self@.contains_key(k) ==> exists|i: int|
                0 <= i < v@.len() && (#[trigger] v@[i]).0@ == k,
    {
        fx_pairs(&self.entries)
    }

    /// The expression bound to `key`, if any.
    pub fn get(&self, key: IndexKey) -> (r: Option<ExprId>)
        ensures
            r == (if self@.contains_key(key@) {
                Some(self@[key@])
            } else {
                None
            }),
    {
        fx_get(&self.entries, &key)
    }

    /// The expression bound to `key`, which must be bound.
    pub fn index(&self, key: IndexKey) -> (e: ExprId)
        requires
            self@.contains_key(key@),
        ensures
            e == self@[key@],
    {
        match fx_get(&self.entries, &key) {
            Some(e) => e,
            None => ExprId(0),
        }
    }
}

} // verus!
