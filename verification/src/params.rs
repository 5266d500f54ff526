//! Request parameters: a map from parameter names to values that keeps the
//! order in which the names were first inserted.

use vstd::prelude::*;
use crate::text::push_char;

verus! {

/// The abstract content of a list of string pairs.
pub open spec fn pairs_view(v: Seq<(String, String)>) -> Seq<(Seq<char>, Seq<char>)> {
    v.map_values(|p: (String, String)| (p.0@, p.1@))
}

/// No name occurs twice.
pub open spec fn distinct_keys(s: Seq<(Seq<char>, Seq<char>)>) -> bool {
    forall|i: int, j: int| 0 <= i < s.len() && 0 <= j < s.len() && i != j ==> s[i].0 != s[j].0
}

/// Whether some entry has the name `k`.
pub open spec fn has_key(s: Seq<(Seq<char>, Seq<char>)>, k: Seq<char>) -> bool {
    exists|i: int| 0 <= i < s.len() && #[trigger] s[i].0 == k
}

/// The position of the entry named `k` (meaningful when `has_key(s, k)`).
pub open spec fn key_pos(s: Seq<(Seq<char>, Seq<char>)>, k: Seq<char>) -> int {
    choose|i: int| 0 <= i < s.len() && #[trigger] s[i].0 == k
}

/// The value stored under `k`, if any.
pub open spec fn lookup(s: Seq<(Seq<char>, Seq<char>)>, k: Seq<char>) -> Option<Seq<char>> {
    if has_key(s, k) {
        Some(s[key_pos(s, k)].1)
    } else {
        None
    }
}

/// The entries after storing `v` under `k`: an existing entry keeps its place
/// and takes the new value; a new name goes to the end.
pub open spec fn inserted(
    s: Seq<(Seq<char>, Seq<char>)>,
    k: Seq<char>,
    v: Seq<char>,
) -> Seq<(Seq<char>, Seq<char>)> {
    if has_key(s, k) {
        s.update(key_pos(s, k), (k, v))
    } else {
        s.push((k, v))
    }
}

/// Parameters of a request, in insertion order, each name at most once.
pub struct Params {
    entries: Vec<(String, String)>,
}

impl View for Params {
    type V = Seq<(Seq<char>, Seq<char>)>;

    closed spec fn view(&self) -> Seq<(Seq<char>, Seq<char>)> {
        pairs_view(self.entries@)
    }
}

/// In a list without repeated names, the entry found at `i` is the one that
/// `key_pos` designates.
pub proof fn lemma_key_pos_unique(s: Seq<(Seq<char>, Seq<char>)>, k: Seq<char>, i: int)
    requires
        distinct_keys(s),
        0 <= i < s.len(),
        s[i].0 == k,
    ensures
        has_key(s, k),
        key_pos(s, k) == i,
        lookup(s, k) == Some(s[i].1),
{
    assert(has_key(s, k));
}

/// After storing `v` under `k`, looking `k` up gives `v`.
pub proof fn lemma_lookup_inserted_same(s: Seq<(Seq<char>, Seq<char>)>, k: Seq<char>, v: Seq<char>)
    requires
        distinct_keys(s),
    ensures
        lookup(inserted(s, k, v), k) == Some(v),
        distinct_keys(inserted(s, k, v)),
{
    let t = inserted(s, k, v);
    if has_key(s, k) {
        let p = key_pos(s, k);
        assert forall|i: int, j: int| 0 <= i < t.len() && 0 <= j < t.len() && i != j implies t[i].0
            != t[j].0 by {
            assert(s[p].0 == k);
        }
        lemma_key_pos_unique(t, k, p);
    } else {
        assert forall|i: int, j: int| 0 <= i < t.len() && 0 <= j < t.len() && i != j implies t[i].0
            != t[j].0 by {
            if i < s.len() && j < s.len() {
            } else if i < s.len() {
                assert(s[i].0 != k);
            } else {
                assert(s[j].0 != k);
            }
        }
        lemma_key_pos_unique(t, k, s.len() as int);
    }
}

/// Storing a value under `k` leaves what every other name maps to unchanged.
pub proof fn lemma_lookup_inserted_other(
    s: Seq<(Seq<char>, Seq<char>)>,
    k: Seq<char>,
    v: Seq<char>,
    other: Seq<char>,
)
    requires
        distinct_keys(s),
        other != k,
    ensures
        lookup(inserted(s, k, v), other) == lookup(s, other),
{
    let t = inserted(s, k, v);
    lemma_lookup_inserted_same(s, k, v);
    if has_key(s, other) {
        let q = key_pos(s, other);
        assert(t[q] == s[q]);
        lemma_key_pos_unique(t, other, q);
    } else {
        if has_key(t, other) {
            let q = key_pos(t, other);
            if q < s.len() {
                assert(t[q] == s[q]);
            }
        }
    }
}

/// Storing a value grows the entries by one exactly when the name is new.
pub proof fn lemma_inserted_len(s: Seq<(Seq<char>, Seq<char>)>, k: Seq<char>, v: Seq<char>)
    ensures
        inserted(s, k, v).len() == if has_key(s, k) {
            s.len()
        } else {
            s.len() + 1
        },
{
}

impl Params {
    #[verifier::type_invariant]
    spec fn inv(self) -> bool {
        distinct_keys(pairs_view(self.entries@))
    }

    /// An empty parameter map.
    pub fn new() -> (p: Params)
        ensures
            p@ == Seq::<(Seq<char>, Seq<char>)>::empty(),
    {
        let p = Params { entries: Vec::new() };
        assert(p@ =~= Seq::<(Seq<char>, Seq<char>)>::empty());
        p
    }

    fn position(&self, key: &String) -> (r: Option<usize>)
        ensures
            distinct_keys(self@),
            r is None <==> !has_key(self@, key@),
            r matches Some(i) ==> i < self@.len() && key_pos(self@, key@) == i && self@[i as int].0
                == key@,
    {
        proof {
            use_type_invariant(self);
        }
        let n = self.entries.len();
        let mut i: usize = 0;
        while i < n
            invariant
                n == self.entries@.len(),
                n == self@.len(),
                i <= n,
                distinct_keys(self@),
                forall|j: int| 0 <= j < i ==> #[trigger] self@[j].0 != key@,
            decreases n - i,
        {
            if self.entries[i].0 == *key {
                proof {
                    assert(self@[i as int].0 == key@);
                    lemma_key_pos_unique(self@, key@, i as int);
                }
                return Some(i);
            }
            assert(self@[i as int].0 != key@);
            i = i + 1;
        }
        None
    }

    /// Stores `value` under `key` and returns the value that was stored under
    /// `key` before, as `HashMap::insert` does.
    pub fn insert(&mut self, key: String, value: String) -> (previous: Option<String>)
        ensures
            final(self)@ == inserted(old(self)@, key@, value@),
            distinct_keys(final(self)@),
            previous is None <==> lookup(old(self)@, key@) is None,
            previous matches Some(o) ==> lookup(old(self)@, key@) == Some(o@),
    {
        let ghost s = self@;
        let ghost k = key@;
        let ghost v = value@;
        proof {
            use_type_invariant(&*self);
            lemma_lookup_inserted_same(s, k, v);
        }
        let pos = self.position(&key);
        let mut entries: Vec<(String, String)> = Vec::new();
        std::mem::swap(&mut entries, &mut self.entries);
        assert(pairs_view(entries@) == s);
        let previous = match pos {
            Some(i) => {
                let old_entry = entries.remove(i);
                entries.insert(i, (key, value));
                assert(pairs_view(entries@) =~= inserted(s, k, v));
                Some(old_entry.1)
            },
            None => {
                entries.push((key, value));
                assert(pairs_view(entries@) =~= inserted(s, k, v));
                None
            },
        };
        self.entries = entries;
        previous
    }

    /// A copy of the parameters.
    pub fn copy(&self) -> (p: Params)
        ensures
            p@ == self@,
    {
        proof {
            use_type_invariant(self);
        }
        let n = self.entries.len();
        let mut entries: Vec<(String, String)> = Vec::new();
        let mut i: usize = 0;
        while i < n
            invariant
                n == self.entries@.len(),
                i <= n,
                entries@.len() == i,
                pairs_view(entries@) == pairs_view(self.entries@).take(i as int),
            decreases n - i,
        {
            let k = self.entries[i].0.clone();
            let v = self.entries[i].1.clone();
            assert(k@ == self.entries@[i as int].0@ && v@ == self.entries@[i as int].1@);
            entries.push((k, v));
            assert(pairs_view(entries@) =~= pairs_view(self.entries@).take(i + 1));
            i = i + 1;
        }
        assert(pairs_view(self.entries@).take(n as int) =~= pairs_view(self.entries@));
        Params { entries }
    }

    /// The value stored under `key`, if any.
    pub fn get(&self, key: &String) -> (r: Option<&String>)
        ensures
            r is None <==> lookup(self@, key@) is None,
            r matches Some(v) ==> lookup(self@, key@) == Some(v@),
    {
        match self.position(key) {
            Some(i) => Some(&self.entries[i].1),
            None => None,
        }
    }

    /// The number of entries.
    pub fn len(&self) -> (n: usize)
        ensures
            n == self@.len(),
    {
        self.entries.len()
    }

    /// Whether there are no entries.
    pub fn is_empty(&self) -> (b: bool)
        ensures
            b == (self@.len() == 0),
    {
        self.entries.len() == 0
    }

    /// The entries, in insertion order.
    pub fn pairs(&self) -> (v: &Vec<(String, String)>)
        ensures
            pairs_view(v@) == self@,
            distinct_keys(self@),
    {
        proof {
            use_type_invariant(self);
        }
        &self.entries
    }
}

/// `k=v` pairs joined by `&`, in order.
pub open spec fn query_of(s: Seq<(Seq<char>, Seq<char>)>) -> Seq<char>
    decreases s.len(),
{
    if s.len() == 0 {
        Seq::empty()
    } else if s.len() == 1 {
        s[0].0 + seq!['='] + s[0].1
    } else {
        query_of(s.drop_last()) + seq!['&'] + s.last().0 + seq!['='] + s.last().1
    }
}

/// Renders the parameters as a query string: `name=value` pairs joined by
/// `&`, in insertion order.
pub fn query_string(params: &Params) -> (q: String)
    ensures
        q@ == query_of(params@),
{
    let v = params.pairs();
    let n = v.len();
    let mut q = String::new();
    let mut i: usize = 0;
    while i < n
        invariant
            n == v@.len(),
            pairs_view(v@) == params@,
            i <= n,
            q@ == query_of(params@.take(i as int)),
        decreases n - i,
    {
        if i > 0 {
            push_char(&mut q, '&');
        }
        q.append(v[i].0.as_str());
        push_char(&mut q, '=');
        q.append(v[i].1.as_str());
        proof {
            let t = params@.take(i + 1);
            assert(t.drop_last() =~= params@.take(i as int));
            assert(t.last() == params@[i as int]);
            assert(params@[i as int] == (v@[i as int].0@, v@[i as int].1@));
            assert(q@ =~= query_of(t));
        }
        i = i + 1;
    }
    assert(params@.take(n as int) =~= params@);
    q
}

/// The query string lists every parameter, in order, as `name=value`, with
/// exactly one `&` between two consecutive parameters.
pub proof fn lemma_query_shape(s: Seq<(Seq<char>, Seq<char>)>, p: (Seq<char>, Seq<char>))
    ensures
        query_of(Seq::empty()) == Seq::<char>::empty(),
        query_of(seq![p]) == p.0 + seq!['='] + p.1,
        s.len() > 0 ==> query_of(s.push(p)) == query_of(s) + seq!['&'] + p.0 + seq!['='] + p.1,
{
    assert(seq![p].len() == 1 && seq![p][0] == p);
    if s.len() > 0 {
        assert(s.push(p).drop_last() =~= s);
        assert(s.push(p).last() == p);
    }
}

} // verus!
