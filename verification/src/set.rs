use vstd::prelude::*;
use vstd::string::*;

verus! {

/// A finite, ordered index set: a list of integers or a list of strings.
#[derive(Clone, Debug)]
pub enum IndexSet {
    Range(Vec<i64>),
    Strings(Vec<String>),
}

/// A key of an index set.
#[derive(Clone, Debug, PartialEq, Eq, Hash)]
pub enum IndexKey {
    Int(i64),
    Str(String),
}

/// What a key holds, as a plain value: two keys are equal exactly when their
/// views are.
pub enum KeyView {
    Int(i64),
    Str(Seq<char>),
}

impl View for IndexKey {
    type V = KeyView;

    open spec fn view(&self) -> KeyView {
        match self {
            IndexKey::Int(i) => KeyView::Int(*i),
            IndexKey::Str(s) => KeyView::Str(s@),
        }
    }
}

/// The keys of a set, in order.
pub open spec fn set_keys(s: IndexSet) -> Seq<KeyView> {
    match s {
        IndexSet::Range(v) => Seq::new(v@.len(), |i: int| KeyView::Int(v@[i])),
        IndexSet::Strings(v) => Seq::new(v@.len(), |i: int| KeyView::Str(v@[i]@)),
    }
}

impl View for IndexSet {
    type V = Seq<KeyView>;

    open spec fn view(&self) -> Seq<KeyView> {
        set_keys(*self)
    }
}

impl IndexKey {
    /// A copy of the key.
    pub fn copy(&self) -> (k: IndexKey)
        ensures
            k@ == self@,
    {
        match self {
            IndexKey::Int(i) => IndexKey::Int(*i),
            IndexKey::Str(s) => IndexKey::Str(s.clone()),
        }
    }
}

impl IndexSet {
    /// The integers `r.start, r.start + 1, ..., r.end - 1` (empty when
    /// `r.end <= r.start`).
    pub fn range(r: std::ops::Range<i64>) -> (s: IndexSet)
        ensures
            s is Range,
            s@.len() == (if r.start < r.end { r.end - r.start } else { 0 }),
            forall|i: int| 0 <= i < s@.len() ==> #[trigger] s@[i] == KeyView::Int((r.start + i) as i64),
    {
        let mut v: Vec<i64> = Vec::new();
        let mut x = r.start;
        if r.start < r.end {
            while x < r.end
                invariant
                    r.start <= x <= r.end,
                    v@.len() == x - r.start,
                    forall|i: int| 0 <= i < v@.len() ==> #[trigger] v@[i] == r.start + i,
                decreases r.end - x,
            {
                v.push(x);
                x = x + 1;
            }
        }
        IndexSet::Range(v)
    }

    /// The given integers, in order.
    pub fn from_iter_i64(items: Vec<i64>) -> (s: IndexSet)
        ensures
            s == IndexSet::Range(items),
    {
        IndexSet::Range(items)
    }

    /// The given strings, in order.
    pub fn strings(items: &[&str]) -> (s: IndexSet)
        ensures
            s is Strings,
            s@.len() == items@.len(),
            forall|i: int| 0 <= i < items@.len() ==> #[trigger] s@[i] == KeyView::Str(items@[i]@),
    {
        let mut v: Vec<String> = Vec::new();
        let n = items.len();
        let mut k: usize = 0;
        while k < n
            invariant
                n == items@.len(),
                0 <= k <= n,
                v@.len() == k,
                forall|i: int| 0 <= i < k ==> (#[trigger] v@[i])@ == items@[i]@,
            decreases n - k,
        {
            v.push(String::from_str(items[k]));
            k = k + 1;
        }
        IndexSet::Strings(v)
    }

    /// The number of keys.
    pub fn len(&self) -> (n: usize)
        ensures
            n == self@.len(),
    {
        match self {
            IndexSet::Range(v) => v.len(),
            IndexSet::Strings(v) => v.len(),
        }
    }

    /// Whether the set has no keys.
    pub fn is_empty(&self) -> (b: bool)
        ensures
            b == (self@.len() == 0),
    {
        self.len() == 0
    }

    /// The key at position `pos`, if there is one.
    pub fn key_at(&self, pos: usize) -> (k: Option<IndexKey>)
        ensures
            match k {
                Some(key) => pos < self@.len() && key@ == self@[pos as int],
                None => pos >= self@.len(),
            },
    {
        match self {
            IndexSet::Range(v) => if pos < v.len() {
                Some(IndexKey::Int(v[pos]))
            } else {
                None
            },
            IndexSet::Strings(v) => if pos < v.len() {
                Some(IndexKey::Str(v[pos].clone()))
            } else {
                None
            },
        }
    }

    /// All keys, in order: exactly what the iterator yields, call by call.
    pub fn keys(&self) -> (ks: Vec<IndexKey>)
        ensures
            ks@.len() == self@.len(),
            forall|i: int| 0 <= i < ks@.len() ==> (#[trigger] ks@[i])@ == self@[i],
            ks@.len() == yielded(*self, self@.len()).len(),
            forall|i: int| 0 <= i < ks@.len() ==> (#[trigger] ks@[i])@ == yielded(*self, self@.len())[i],
    {
        let n = self.len();
        let mut it = self.iter();
        let mut ks: Vec<IndexKey> = Vec::new();
        let mut calls: usize = 0;
        while calls < n
            invariant
                n == self@.len(),
                0 <= calls <= n,
                it.set() == *self,
                it.pos() == pos_after(*self, calls as nat),
                pos_after(*self, calls as nat) == calls,
                ks@.len() == calls,
                forall|i: int| 0 <= i < calls ==> (#[trigger] ks@[i])@ == self@[i],
            decreases n - calls,
        {
            let ghost before = ks@;
            match it.next() {
                Some(k) => ks.push(k),
                None => {},
            }
            proof {
                lemma_iterator_calls(*self, (calls + 1) as nat);
            }
            calls = calls + 1;
        }
        proof {
            lemma_yielded(*self, n as nat);
            assert(self@.take(n as int) =~= self@);
        }
        ks
    }

    /// An iterator over the keys, in order.
    pub fn iter(&self) -> (it: SetIter<'_>)
        ensures
            it.set() == *self,
            it.pos() == 0,
    {
        SetIter { set: self, pos: 0 }
    }
}

/// What a call of `next` yields when `pos` keys have been handed out: the
/// key at `pos`, or nothing past the end.
pub open spec fn next_key(s: IndexSet, pos: nat) -> Option<KeyView> {
    if pos < s@.len() {
        Some(s@[pos as int])
    } else {
        None
    }
}

/// How many keys have been handed out after that call.
pub open spec fn next_pos(s: IndexSet, pos: nat) -> nat {
    if pos < s@.len() {
        pos + 1
    } else {
        pos
    }
}

pub open spec fn same_key(k: Option<IndexKey>, v: Option<KeyView>) -> bool {
    match k {
        Some(key) => v == Some(key@),
        None => v is None,
    }
}

/// How many keys a fresh iterator has handed out after `calls` calls of
/// `next`.
pub open spec fn pos_after(s: IndexSet, calls: nat) -> nat
    decreases calls,
{
    if calls == 0 {
        0
    } else {
        next_pos(s, pos_after(s, (calls - 1) as nat))
    }
}

/// What call number `k` (from 0) of `next` on a fresh iterator yields.
pub open spec fn call_result(s: IndexSet, k: nat) -> Option<KeyView> {
    next_key(s, pos_after(s, k))
}

/// The keys yielded by the first `calls` calls of `next` on a fresh
/// iterator, in order (a call that yields nothing adds nothing).
pub open spec fn yielded(s: IndexSet, calls: nat) -> Seq<KeyView>
    decreases calls,
{
    if calls == 0 {
        Seq::empty()
    } else {
        yielded(s, (calls - 1) as nat) + match call_result(s, (calls - 1) as nat) {
            Some(x) => seq![x],
            None => Seq::empty(),
        }
    }
}

/// Iterating a set: call number `k` of `next` on a fresh iterator yields the
/// key at position `k` while `k` is below the set's length, and nothing at
/// every later call; the iterator never skips or repeats a key.
pub proof fn lemma_iterator_calls(s: IndexSet, k: nat)
    ensures
        pos_after(s, k) == (if k < s@.len() { k } else { s@.len() }),
        k < s@.len() ==> call_result(s, k) == Some(s@[k as int]),
        k >= s@.len() ==> call_result(s, k) is None,
    decreases k,
{
    if k > 0 {
        lemma_iterator_calls(s, (k - 1) as nat);
    }
}

/// The keys yielded by the first `n` calls are the first `n` keys of the set
/// (all of them once `n` reaches its length): an iterator yields exactly
/// `len()` keys, in the set's order.
pub proof fn lemma_yielded(s: IndexSet, n: nat)
    ensures
        yielded(s, n) == s@.take(if n < s@.len() { n as int } else { s@.len() as int }),
        n >= s@.len() ==> yielded(s, n) == s@ && yielded(s, n).len() == s@.len(),
    decreases n,
{
    if n > 0 {
        lemma_yielded(s, (n - 1) as nat);
        lemma_iterator_calls(s, (n - 1) as nat);
        let m = (n - 1) as nat;
        if m < s@.len() {
            assert(s@.take(m as int).push(s@[m as int]) =~= s@.take(m as int + 1));
        }
    }
    if n >= s@.len() {
        assert(s@.take(s@.len() as int) =~= s@);
    }
}

/// Walks the keys of an [`IndexSet`] in order.
#[derive(Debug)]
pub struct SetIter<'a> {
    set: &'a IndexSet,
    pos: usize,
}

impl<'a> SetIter<'a> {
    pub closed spec fn set(&self) -> IndexSet {
        *self.set
    }

    /// How many keys have been handed out.
    pub closed spec fn pos(&self) -> nat {
        self.pos as nat
    }

    /// The next key, or `None` once every key has been handed out.
    pub fn next(&mut self) -> (k: Option<IndexKey>)
        ensures
            final(self).set() == old(self).set(),
            final(self).pos() == next_pos(old(self).set(), old(self).pos()),
            same_key(k, next_key(old(self).set(), old(self).pos())),
    {
        let n = self.set.len();
        let out = self.set.key_at(self.pos);
        if self.pos < n {
            self.pos = self.pos + 1;
        }
        out
    }
}

impl From<i64> for IndexKey {
    fn from(v: i64) -> (k: IndexKey)
        ensures
            k == IndexKey::Int(v),
    {
        IndexKey::Int(v)
    }
}

impl vstd::std_specs::convert::FromSpecImpl<i64> for IndexKey {
    open spec fn obeys_from_spec() -> bool {
        true
    }

    open spec fn from_spec(v: i64) -> IndexKey {
        IndexKey::Int(v)
    }
}

impl From<String> for IndexKey {
    fn from(s: String) -> (k: IndexKey)
        ensures
            k == IndexKey::Str(s),
    {
        IndexKey::Str(s)
    }
}

impl vstd::std_specs::convert::FromSpecImpl<String> for IndexKey {
    open spec fn obeys_from_spec() -> bool {
        true
    }

    open spec fn from_spec(v: String) -> IndexKey {
        IndexKey::Str(v)
    }
}

impl<'a> From<&'a str> for IndexKey {
    /// The key holds a copy of the text; the impl's own contract states it
    /// over the key's view.
    fn from(s: &'a str) -> (k: IndexKey)
        ensures
            k@ == KeyView::Str(s@),
    {
        IndexKey::Str(s.to_owned())
    }
}

/// A key built from a `&str` holds the text; `from` states it over the key's
/// view. Two `String`s with the same text need not be one spec value, so no
/// single key is promised here.
impl<'a> vstd::std_specs::convert::FromSpecImpl<&'a str> for IndexKey {
    open spec fn obeys_from_spec() -> bool {
        false
    }

    open spec fn from_spec(v: &'a str) -> IndexKey {
        choose|k: IndexKey| k@ == KeyView::Str(v@)
    }
}

} // verus!
