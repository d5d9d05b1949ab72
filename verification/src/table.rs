//! A small string-keyed map that keeps each key once, its keys in the
//! order of `str`'s `Ord` (as an ordered map of strings does).

use vstd::prelude::*;

verus! {

/// Map view of an entry list: later entries override earlier ones.
pub open spec fn map_of<V>(s: Seq<(String, V)>) -> Map<Seq<char>, V>
    decreases s.len(),
{
    if s.len() == 0 {
        Map::empty()
    } else {
        map_of(s.drop_last()).insert(s.last().0@, s.last().1)
    }
}

/// The keys of an entry list, in order.
pub open spec fn keys_of<V>(s: Seq<(String, V)>) -> Seq<Seq<char>> {
    s.map_values(|e: (String, V)| e.0@)
}

/// No key occurs twice.
pub open spec fn unique_keys<V>(s: Seq<(String, V)>) -> bool {
    forall|i: int, j: int| 0 <= i < j < s.len() ==> s[i].0@ != s[j].0@
}

/// `a` comes before `b` in the order of `str`'s `Ord`: code point by code
/// point, a proper prefix first (UTF-8 keeps the order of code points, so
/// this is also the order of their bytes).
pub open spec fn key_lt(a: Seq<char>, b: Seq<char>) -> bool
    decreases a.len(),
{
    if a.len() == 0 {
        b.len() > 0
    } else if b.len() == 0 {
        false
    } else if a[0] != b[0] {
        a[0] < b[0]
    } else {
        key_lt(a.drop_first(), b.drop_first())
    }
}

/// Keys in strictly increasing order.
pub open spec fn keys_sorted(ks: Seq<Seq<char>>) -> bool {
    forall|i: int, j: int| 0 <= i < j < ks.len() ==> key_lt(#[trigger] ks[i], #[trigger] ks[j])
}

/// The entries of a list, ordered by key.
pub open spec fn sorted_entries<V>(s: Seq<(String, V)>) -> bool {
    forall|i: int, j: int| 0 <= i < j < s.len() ==> key_lt(#[trigger] s[i].0@, #[trigger] s[j].0@)
}

pub proof fn lemma_key_lt_irreflexive(a: Seq<char>)
    ensures
        !key_lt(a, a),
    decreases a.len(),
{
    if a.len() > 0 {
        lemma_key_lt_irreflexive(a.drop_first());
    }
}

pub proof fn lemma_key_lt_transitive(a: Seq<char>, b: Seq<char>, c: Seq<char>)
    requires
        key_lt(a, b),
        key_lt(b, c),
    ensures
        key_lt(a, c),
    decreases a.len(),
{
    if a.len() > 0 && b.len() > 0 && c.len() > 0 && a[0] == b[0] && b[0] == c[0] {
        lemma_key_lt_transitive(a.drop_first(), b.drop_first(), c.drop_first());
    }
}

pub proof fn lemma_key_lt_total(a: Seq<char>, b: Seq<char>)
    requires
        a != b,
    ensures
        key_lt(a, b) || key_lt(b, a),
    decreases a.len(),
{
    if a.len() > 0 && b.len() > 0 && a[0] == b[0] {
        if a.drop_first() == b.drop_first() {
            assert(a =~= seq![a[0]] + a.drop_first());
            assert(b =~= seq![b[0]] + b.drop_first());
        }
        lemma_key_lt_total(a.drop_first(), b.drop_first());
    } else if a.len() == 0 && b.len() == 0 {
        assert(a =~= b);
    }
}

/// Whether `a` comes before `b` (see [`key_lt`]).
pub fn key_less(a: &str, b: &str) -> (r: bool)
    ensures
        r == key_lt(a@, b@),
{
    let x = crate::text::chars_of(a);
    let y = crate::text::chars_of(b);
    let mut i: usize = 0;
    assert(x@.skip(0) =~= x@ && y@.skip(0) =~= y@);
    while i < x.len() && i < y.len() && x[i] == y[i]
        invariant
            x@ == a@,
            y@ == b@,
            i <= x@.len(),
            i <= y@.len(),
            key_lt(a@, b@) == key_lt(x@.skip(i as int), y@.skip(i as int)),
        decreases x.len() - i,
    {
        assert(x@.skip(i as int).drop_first() =~= x@.skip(i + 1));
        assert(y@.skip(i as int).drop_first() =~= y@.skip(i + 1));
        i = i + 1;
    }
    if i == x.len() {
        i < y.len()
    } else if i == y.len() {
        false
    } else {
        x[i] < y[i]
    }
}

/// Sorted entries hold each key once.
pub proof fn lemma_sorted_unique<V>(s: Seq<(String, V)>)
    requires
        sorted_entries(s),
    ensures
        unique_keys(s),
{
    assert forall|i: int, j: int| 0 <= i < j < s.len() implies s[i].0@ != s[j].0@ by {
        lemma_key_lt_irreflexive(s[i].0@);
    }
}

/// Inserting an entry for a new key anywhere adds it to the map view.
pub proof fn lemma_map_of_insert_at<V>(s: Seq<(String, V)>, i: int, k: String, v: V)
    requires
        0 <= i <= s.len(),
        forall|j: int| 0 <= j < s.len() ==> s[j].0@ != k@,
    ensures
        map_of(s.insert(i, (k, v))) == map_of(s).insert(k@, v),
    decreases s.len(),
{
    let t = s.insert(i, (k, v));
    if i == s.len() {
        assert(t.drop_last() =~= s);
    } else {
        assert(t.drop_last() =~= s.drop_last().insert(i, (k, v)));
        assert(t.last() == s.last());
        lemma_map_of_insert_at(s.drop_last(), i, k, v);
        assert(map_of(t) =~= map_of(s).insert(k@, v));
    }
}

pub proof fn lemma_map_of_finite<V>(s: Seq<(String, V)>)
    ensures
        map_of(s).dom().finite(),
    decreases s.len(),
{
    if s.len() > 0 {
        lemma_map_of_finite(s.drop_last());
    }
}

pub proof fn lemma_map_of_domain<V>(s: Seq<(String, V)>, k: Seq<char>)
    ensures
        map_of(s).contains_key(k) <==> exists|i: int| 0 <= i < s.len() && s[i].0@ == k,
    decreases s.len(),
{
    if s.len() > 0 {
        lemma_map_of_domain(s.drop_last(), k);
        if map_of(s).contains_key(k) && s.last().0@ != k {
            let i = choose|i: int| 0 <= i < s.len() - 1 && s.drop_last()[i].0@ == k;
            assert(s[i].0@ == k);
        }
        if exists|i: int| 0 <= i < s.len() && s[i].0@ == k {
            let i = choose|i: int| 0 <= i < s.len() && s[i].0@ == k;
            if i < s.len() - 1 {
                assert(s.drop_last()[i].0@ == k);
            }
        }
    }
}

/// With unique keys, the value of the entry holding `s[i]`'s key is `s[i]`'s value.
pub proof fn lemma_map_of_entry<V>(s: Seq<(String, V)>, i: int)
    requires
        unique_keys(s),
        0 <= i < s.len(),
    ensures
        map_of(s).contains_key(s[i].0@),
        map_of(s)[s[i].0@] == s[i].1,
    decreases s.len(),
{
    if i < s.len() - 1 {
        lemma_map_of_entry(s.drop_last(), i);
    }
}

/// Replacing the value of an existing key updates the map view in place.
pub proof fn lemma_map_of_update<V>(s: Seq<(String, V)>, j: int, k: String, v: V)
    requires
        unique_keys(s),
        0 <= j < s.len(),
        k@ == s[j].0@,
    ensures
        map_of(s.update(j, (k, v))) == map_of(s).insert(k@, v),
    decreases s.len(),
{
    let t = s.update(j, (k, v));
    if j == s.len() - 1 {
        assert(t.drop_last() =~= s.drop_last());
        assert(map_of(t) =~= map_of(s).insert(k@, v));
    } else {
        assert(t.drop_last() =~= s.drop_last().update(j, (k, v)));
        lemma_map_of_update(s.drop_last(), j, k, v);
        assert(map_of(t) =~= map_of(s).insert(k@, v));
    }
}

/// The keys of sorted entries are sorted, and they are the keys of the map view.
proof fn lemma_sorted_keys<V>(s: Seq<(String, V)>)
    requires
        sorted_entries(s),
    ensures
        keys_sorted(keys_of(s)),
        forall|k: Seq<char>| map_of(s).contains_key(k) <==> keys_of(s).contains(k),
{
    assert forall|i: int, j: int| 0 <= i < j < keys_of(s).len() implies key_lt(
        #[trigger] keys_of(s)[i],
        #[trigger] keys_of(s)[j],
    ) by {
        assert(keys_of(s)[i] == s[i].0@);
        assert(keys_of(s)[j] == s[j].0@);
    }
    assert forall|k: Seq<char>| map_of(s).contains_key(k) <==> keys_of(s).contains(k) by {
        lemma_map_of_domain(s, k);
        if keys_of(s).contains(k) {
            let i = choose|i: int| 0 <= i < keys_of(s).len() && keys_of(s)[i] == k;
            assert(s[i].0@ == k);
        }
        if exists|i: int| 0 <= i < s.len() && s[i].0@ == k {
            let i = choose|i: int| 0 <= i < s.len() && s[i].0@ == k;
            assert(keys_of(s)[i] == k);
        }
    }
}

/// A string-keyed table with unique keys, kept in order.
#[derive(Debug)]
pub struct Table<V> {
    entries: Vec<(String, V)>,
}

impl<V> View for Table<V> {
    type V = Map<Seq<char>, V>;

    closed spec fn view(&self) -> Map<Seq<char>, V> {
        map_of(self.entries@)
    }
}

impl<V> Table<V> {
    /// Every key occurs once, and the keys are in order.
    #[verifier::type_invariant]
    closed spec fn wf(&self) -> bool {
        unique_keys(self.entries@) && sorted_entries(self.entries@)
    }

    /// The keys, in order.
    pub closed spec fn key_seq(&self) -> Seq<Seq<char>> {
        keys_of(self.entries@)
    }

    pub closed spec fn len_spec(&self) -> nat {
        self.entries@.len()
    }

    /// The table holds finitely many keys.
    pub proof fn lemma_finite(&self)
        ensures
            self@.dom().finite(),
    {
        lemma_map_of_finite(self.entries@);
    }

    pub fn new() -> (t: Self)
        ensures
            t@ == Map::<Seq<char>, V>::empty(),
            t.key_seq() == Seq::<Seq<char>>::empty(),
    {
        let t = Table { entries: Vec::new() };
        assert(t.key_seq() =~= Seq::<Seq<char>>::empty());
        t
    }

    /// Index of the entry holding `key`, if any.
    fn position(&self, key: &String) -> (r: Option<usize>)
        ensures
            match r {
                Some(i) => i < self.entries@.len() && self.entries@[i as int].0@ == key@,
                None => forall|i: int| 0 <= i < self.entries@.len() ==> self.entries@[i].0@ != key@,
            },
    {
        let mut i: usize = 0;
        while i < self.entries.len()
            invariant
                i <= self.entries@.len(),
                forall|k: int| 0 <= k < i ==> self.entries@[k].0@ != key@,
            decreases self.entries.len() - i,
        {
            if self.entries[i].0 == *key {
                return Some(i);
            }
            i = i + 1;
        }
        None
    }

    /// Where `key` belongs: the first entry whose key does not come before
    /// it.
    fn locate(&self, key: &String) -> (r: usize)
        ensures
            r <= self.entries@.len(),
            forall|j: int| 0 <= j < r ==> key_lt(#[trigger] self.entries@[j].0@, key@),
            r < self.entries@.len() ==> !key_lt(self.entries@[r as int].0@, key@),
    {
        let mut i: usize = 0;
        while i < self.entries.len() && key_less(self.entries[i].0.as_str(), key.as_str())
            invariant
                i <= self.entries@.len(),
                forall|j: int| 0 <= j < i ==> key_lt(#[trigger] self.entries@[j].0@, key@),
            decreases self.entries.len() - i,
        {
            i = i + 1;
        }
        i
    }

    /// Inserts or replaces `key`, keeping the keys in order.
    pub fn insert(&mut self, key: String, value: V)
        ensures
            final(self)@ == old(self)@.insert(key@, value),
            old(self)@.contains_key(key@) ==> final(self).key_seq() == old(self).key_seq(),
    {
        let mut taken = Table::new();
        std::mem::swap(self, &mut taken);
        proof {
            use_type_invariant(&taken);
            lemma_map_of_domain(taken.entries@, key@);
        }
        let pos = taken.locate(&key);
        let Table { mut entries } = taken;
        let ghost s = entries@;
        let found = pos < entries.len() && crate::text::same_text(entries[pos].0.as_str(), key.as_str());
        if found {
            let ghost kk = key;
            let ghost vv = value;
            proof {
                lemma_map_of_update(s, pos as int, kk, vv);
            }
            entries.set(pos, (key, value));
            assert(entries@ =~= s.update(pos as int, (kk, vv)));
            assert(keys_of(entries@) =~= keys_of(s));
            assert(sorted_entries(entries@)) by {
                assert forall|i: int, j: int| 0 <= i < j < entries@.len() implies key_lt(
                    #[trigger] entries@[i].0@,
                    #[trigger] entries@[j].0@,
                ) by {
                    assert(entries@[i].0@ == s[i].0@);
                    assert(entries@[j].0@ == s[j].0@);
                }
            }
        } else {
            let ghost kk = key;
            let ghost vv = value;
            proof {
                assert forall|j: int| 0 <= j < s.len() implies s[j].0@ != kk@ by {
                    if j < pos {
                        lemma_key_lt_irreflexive(kk@);
                    } else if s[j].0@ == kk@ {
                        if j > pos {
                            assert(key_lt(s[pos as int].0@, s[j].0@));
                            if s[pos as int].0@ != kk@ {
                                lemma_key_lt_total(s[pos as int].0@, kk@);
                            } else {
                                lemma_key_lt_irreflexive(kk@);
                            }
                        }
                    }
                }
                lemma_map_of_insert_at(s, pos as int, kk, vv);
                if (pos as int) < s.len() {
                    assert(s[pos as int].0@ != kk@);
                    lemma_key_lt_total(s[pos as int].0@, kk@);
                }
            }
            entries.insert(pos, (key, value));
            assert(entries@ =~= s.insert(pos as int, (kk, vv)));
            assert(sorted_entries(entries@)) by {
                assert forall|i: int, j: int| 0 <= i < j < entries@.len() implies key_lt(
                    #[trigger] entries@[i].0@,
                    #[trigger] entries@[j].0@,
                ) by {
                    if j < pos {
                        assert(entries@[i] == s[i] && entries@[j] == s[j]);
                    } else if j == pos {
                        assert(entries@[i] == s[i]);
                    } else if i == pos {
                        assert(entries@[j] == s[j - 1]);
                        if j - 1 > pos {
                            lemma_key_lt_transitive(kk@, s[pos as int].0@, s[j - 1].0@);
                        }
                    } else if i < pos {
                        assert(entries@[i] == s[i] && entries@[j] == s[j - 1]);
                    } else {
                        assert(entries@[i] == s[i - 1] && entries@[j] == s[j - 1]);
                    }
                }
            }
            proof {
                lemma_sorted_unique(entries@);
            }
        }
        *self = Table { entries };
    }

    /// The value stored under `key`.
    pub fn get(&self, key: &String) -> (r: Option<&V>)
        ensures
            match r {
                Some(v) => self@.contains_key(key@) && *v == self@[key@],
                None => !self@.contains_key(key@),
            },
    {
        proof {
            use_type_invariant(self);
            lemma_map_of_domain(self.entries@, key@);
        }
        match self.position(key) {
            Some(i) => {
                proof {
                    lemma_map_of_entry(self.entries@, i as int);
                }
                Some(&self.entries[i].1)
            },
            None => None,
        }
    }

    pub fn contains_key(&self, key: &str) -> (r: bool)
        ensures
            r == self@.contains_key(key@),
    {
        let k = String::from_str(key);
        self.get(&k).is_some()
    }

    pub fn is_empty(&self) -> (r: bool)
        ensures
            r == (self@.dom() == Set::<Seq<char>>::empty()),
    {
        proof {
            use_type_invariant(self);
            if self.entries@.len() > 0 {
                lemma_map_of_domain(self.entries@, self.entries@[0].0@);
                assert(self@.dom().contains(self.entries@[0].0@));
            } else {
                assert(self@.dom() =~= Set::<Seq<char>>::empty());
            }
        }
        self.entries.len() == 0
    }

    pub fn len(&self) -> (r: usize)
        ensures
            r == self.len_spec(),
    {
        self.entries.len()
    }

    /// The keys, in order: each key of the table once, in increasing order.
    pub fn keys(&self) -> (r: Vec<String>)
        ensures
            r@.map_values(|k: String| k@) == self.key_seq(),
            keys_sorted(self.key_seq()),
            forall|k: Seq<char>| self@.contains_key(k) <==> self.key_seq().contains(k),
    {
        proof {
            use_type_invariant(self);
            lemma_sorted_keys(self.entries@);
        }
        let mut r: Vec<String> = Vec::new();
        let mut i: usize = 0;
        while i < self.entries.len()
            invariant
                i <= self.entries@.len(),
                r@.len() == i,
                forall|k: int| 0 <= k < i ==> r@[k]@ == self.entries@[k].0@,
            decreases self.entries.len() - i,
        {
            r.push(self.entries[i].0.clone());
            i = i + 1;
        }
        assert(r@.map_values(|k: String| k@) =~= self.key_seq());
        r
    }
}

impl<V> Default for Table<V> {
    fn default() -> (t: Self)
        ensures
            t@ == Map::<Seq<char>, V>::empty(),
    {
        Table::new()
    }
}

impl Table<String> {
    /// An independent copy with the same keys, order and values.
    pub fn duplicate(&self) -> (r: Self)
        ensures
            r@ == self@,
            r.key_seq() == self.key_seq(),
    {
        proof {
            use_type_invariant(self);
        }
        let mut entries: Vec<(String, String)> = Vec::new();
        let mut i: usize = 0;
        while i < self.entries.len()
            invariant
                i <= self.entries@.len(),
                entries@ == self.entries@.take(i as int),
            decreases self.entries.len() - i,
        {
            let k = self.entries[i].0.clone();
            let v = self.entries[i].1.clone();
            entries.push((k, v));
            assert(entries@ =~= self.entries@.take(i + 1));
            i = i + 1;
        }
        assert(entries@ =~= self.entries@);
        Table { entries }
    }

    /// The entries as (key, value) pairs, in key order.
    pub fn pairs(&self) -> (r: Vec<(String, String)>)
        ensures
            map_of(r@) == self@,
            unique_keys(r@),
            keys_of(r@) == self.key_seq(),
    {
        let d = self.duplicate();
        proof {
            use_type_invariant(&d);
        }
        let Table { entries } = d;
        entries
    }
}

} // verus!
