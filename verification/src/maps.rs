//! Small string-keyed maps with an exact model.
//!
//! `StatusMap` holds `adb devices` results (address -> status): each key occurs
//! once, and writing a key that is present replaces its value in place.
//! `PropMap` holds `getprop` results: each key occurs once and the keys are kept
//! in ascending order, so reading it back lists the properties sorted by name.
//!
//! std's `HashMap` and `BTreeMap` keyed by `String` give Verus no lookup facts
//! it can prove after an insert, so both maps keep their entries in a `Vec`
//! and state what those types guaranteed (unique keys, sorted keys) as type
//! invariants.
use vstd::prelude::*;
use crate::text::{self, chars_of, lex_lt_exec, owned};

verus! {

/// A key/value entry, as character sequences.
pub type Entry = (Seq<char>, Seq<char>);

/// The views of string pairs.
pub open spec fn pair_views(v: Seq<(String, String)>) -> Seq<Entry> {
    v.map_values(|e: (String, String)| (e.0@, e.1@))
}

/// No key occurs twice.
pub open spec fn keys_unique(es: Seq<Entry>) -> bool {
    forall|i: int, j: int| 0 <= i < j < es.len() ==> es[i].0 != es[j].0
}

/// The keys are in strictly ascending order.
pub open spec fn keys_sorted(es: Seq<Entry>) -> bool {
    forall|i: int, j: int| 0 <= i < j < es.len() ==> text::lex_lt(es[i].0, es[j].0)
}

/// The index of the first entry whose key is `k`.
pub open spec fn index_of_key(es: Seq<Entry>, k: Seq<char>) -> Option<int>
    decreases es.len(),
{
    if es.len() == 0 {
        None
    } else if es[0].0 == k {
        Some(0)
    } else {
        match index_of_key(es.drop_first(), k) {
            Some(j) => Some(j + 1),
            None => None,
        }
    }
}

/// The value of the first entry whose key is `k`.
pub open spec fn lookup(es: Seq<Entry>, k: Seq<char>) -> Option<Seq<char>> {
    match index_of_key(es, k) {
        Some(j) => Some(es[j].1),
        None => None,
    }
}

/// Writes `k -> v`: replaces the value of the first entry with key `k`, or
/// appends the entry when no entry has that key.
pub open spec fn upsert(es: Seq<Entry>, k: Seq<char>, v: Seq<char>) -> Seq<Entry> {
    match index_of_key(es, k) {
        Some(j) => es.update(j, (k, v)),
        None => es.push((k, v)),
    }
}

/// The number of leading entries whose key sorts before `k`.
pub open spec fn insert_pos(es: Seq<Entry>, k: Seq<char>) -> int
    decreases es.len(),
{
    if es.len() == 0 {
        0
    } else if text::lex_lt(es[0].0, k) {
        1 + insert_pos(es.drop_first(), k)
    } else {
        0
    }
}

/// Writes `k -> v` into entries sorted by key, keeping them sorted: replaces the
/// value when the key is present, else inserts the entry at its place.
pub open spec fn sorted_upsert(es: Seq<Entry>, k: Seq<char>, v: Seq<char>) -> Seq<Entry> {
    let j = insert_pos(es, k);
    if j < es.len() && es[j].0 == k {
        es.update(j, (k, v))
    } else {
        es.insert(j, (k, v))
    }
}

// ---------------------------------------------------------------------------
// Lemmas
// ---------------------------------------------------------------------------

/// The index found for a key holds that key, and no earlier entry does.
pub proof fn lemma_index_of_key(es: Seq<Entry>, k: Seq<char>)
    ensures
        match index_of_key(es, k) {
            Some(j) => 0 <= j < es.len() && es[j].0 == k && forall|i: int|
                0 <= i < j ==> es[i].0 != k,
            None => forall|i: int| 0 <= i < es.len() ==> es[i].0 != k,
        },
    decreases es.len(),
{
    if es.len() > 0 {
        lemma_index_of_key(es.drop_first(), k);
        if es[0].0 != k {
            assert forall|i: int| 0 < i < es.len() implies es[i].0 == es.drop_first()[i - 1].0 by {}
        }
    }
}

/// Characterises the first index of a key by its properties.
pub proof fn lemma_index_of_key_is(es: Seq<Entry>, k: Seq<char>, j: int)
    requires
        0 <= j < es.len(),
        es[j].0 == k,
        forall|i: int| 0 <= i < j ==> es[i].0 != k,
    ensures
        index_of_key(es, k) == Some(j),
{
    lemma_index_of_key(es, k);
    match index_of_key(es, k) {
        Some(m) => {
            if m < j {
                assert(es[m].0 != k);
            } else if m > j {
                assert(es[j].0 != k);
            }
        },
        None => {
            assert(es[j].0 != k);
        },
    }
}

/// A key held by no entry has no index.
pub proof fn lemma_index_of_key_none(es: Seq<Entry>, k: Seq<char>)
    requires
        forall|i: int| 0 <= i < es.len() ==> es[i].0 != k,
    ensures
        index_of_key(es, k) is None,
{
    lemma_index_of_key(es, k);
    if let Some(j) = index_of_key(es, k) {
        assert(es[j].0 != k);
    }
}

/// Writing a key keeps the keys unique.
pub proof fn lemma_upsert_unique(es: Seq<Entry>, k: Seq<char>, v: Seq<char>)
    requires
        keys_unique(es),
    ensures
        keys_unique(upsert(es, k, v)),
{
    lemma_index_of_key(es, k);
    let r = upsert(es, k, v);
    assert forall|i: int, j: int| 0 <= i < j < r.len() implies r[i].0 != r[j].0 by {
        match index_of_key(es, k) {
            Some(m) => {
                assert(r[i].0 == es[i].0);
                assert(r[j].0 == es[j].0);
            },
            None => {
                if j == es.len() {
                    assert(r[i].0 == es[i].0);
                } else {
                    assert(r[i].0 == es[i].0);
                    assert(r[j].0 == es[j].0);
                }
            },
        }
    }
}

/// In sorted entries, the insertion point of `k` splits the keys below `k` from the others.
pub proof fn lemma_insert_pos(es: Seq<Entry>, k: Seq<char>)
    requires
        keys_sorted(es),
    ensures
        0 <= insert_pos(es, k) <= es.len(),
        forall|i: int| 0 <= i < insert_pos(es, k) ==> text::lex_lt(#[trigger] es[i].0, k),
        forall|i: int| insert_pos(es, k) <= i < es.len() ==> !text::lex_lt(#[trigger] es[i].0, k),
    decreases es.len(),
{
    if es.len() > 0 {
        let t = es.drop_first();
        assert(keys_sorted(t)) by {
            assert forall|i: int, j: int| 0 <= i < j < t.len() implies text::lex_lt(t[i].0, t[j].0) by {
                assert(t[i] == es[i + 1] && t[j] == es[j + 1]);
            }
        }
        lemma_insert_pos(t, k);
        if text::lex_lt(es[0].0, k) {
            assert forall|i: int| 0 <= i < insert_pos(es, k) implies text::lex_lt(
                #[trigger] es[i].0,
                k,
            ) by {
                if i > 0 {
                    assert(es[i] == t[i - 1]);
                }
            }
            assert forall|i: int| insert_pos(es, k) <= i < es.len() implies !text::lex_lt(
                #[trigger] es[i].0,
                k,
            ) by {
                assert(es[i] == t[i - 1]);
            }
        } else {
            assert forall|i: int| 0 <= i < es.len() implies !text::lex_lt(#[trigger] es[i].0, k) by {
                if i > 0 && text::lex_lt(es[i].0, k) {
                    text::lemma_lex_lt_transitive(es[0].0, es[i].0, k);
                } else if i > 0 {
                }
            }
        }
    }
}

/// Writing a key into sorted entries keeps them sorted.
pub proof fn lemma_sorted_upsert_sorted(es: Seq<Entry>, k: Seq<char>, v: Seq<char>)
    requires
        keys_sorted(es),
    ensures
        keys_sorted(sorted_upsert(es, k, v)),
{
    lemma_insert_pos(es, k);
    let p = insert_pos(es, k);
    let r = sorted_upsert(es, k, v);
    if p < es.len() && es[p].0 == k {
        assert forall|i: int, j: int| 0 <= i < j < r.len() implies text::lex_lt(r[i].0, r[j].0) by {
            assert(r[i].0 == es[i].0);
            assert(r[j].0 == es[j].0);
        }
    } else {
        if p < es.len() {
            text::lemma_lex_lt_total(es[p].0, k);
        }
        assert forall|i: int, j: int| 0 <= i < j < r.len() implies text::lex_lt(r[i].0, r[j].0) by {
            if j < p {
                assert(r[i] == es[i] && r[j] == es[j]);
            } else if j == p {
                assert(r[i] == es[i]);
            } else if i < p {
                assert(r[i] == es[i] && r[j] == es[j - 1]);
                if j - 1 > p {
                    text::lemma_lex_lt_transitive(k, es[p].0, es[j - 1].0);
                }
                text::lemma_lex_lt_transitive(es[i].0, k, es[j - 1].0);
            } else if i == p {
                assert(r[j] == es[j - 1]);
                if j - 1 > p {
                    text::lemma_lex_lt_transitive(k, es[p].0, es[j - 1].0);
                }
            } else {
                assert(r[i] == es[i - 1] && r[j] == es[j - 1]);
            }
        }
    }
}

/// Sorted keys are unique.
pub proof fn lemma_sorted_unique(es: Seq<Entry>)
    requires
        keys_sorted(es),
    ensures
        keys_unique(es),
{
    assert forall|i: int, j: int| 0 <= i < j < es.len() implies es[i].0 != es[j].0 by {
        if es[i].0 == es[j].0 {
            text::lemma_lex_lt_irreflexive(es[i].0);
        }
    }
}

/// A read gives back the last write: after writing `k -> v`, reading `k`
/// gives `v` and reading any other key gives what it gave before.
pub proof fn law_lookup_upsert(es: Seq<Entry>, k: Seq<char>, v: Seq<char>, a: Seq<char>)
    ensures
        lookup(upsert(es, k, v), a) == (if a == k {
            Some(v)
        } else {
            lookup(es, a)
        }),
{
    let r = upsert(es, k, v);
    lemma_index_of_key(es, k);
    lemma_index_of_key(es, a);
    assert forall|i: int| 0 <= i < es.len() implies (#[trigger] r[i]).0 == es[i].0 by {}
    if a == k {
        match index_of_key(es, k) {
            Some(j) => {
                lemma_index_of_key_is(r, a, j);
            },
            None => {
                lemma_index_of_key_is(r, a, es.len() as int);
            },
        }
    } else {
        match index_of_key(es, a) {
            Some(m) => {
                lemma_index_of_key_is(r, a, m);
                if let Some(j) = index_of_key(es, k) {
                    assert(m != j);
                }
            },
            None => {
                lemma_index_of_key_none(r, a);
            },
        }
    }
}

/// The same for sorted entries: after writing `k -> v`, reading `k` gives `v`
/// and reading any other key gives what it gave before.
pub proof fn law_lookup_sorted_upsert(es: Seq<Entry>, k: Seq<char>, v: Seq<char>, a: Seq<char>)
    requires
        keys_sorted(es),
    ensures
        lookup(sorted_upsert(es, k, v), a) == (if a == k {
            Some(v)
        } else {
            lookup(es, a)
        }),
{
    let r = sorted_upsert(es, k, v);
    let p = insert_pos(es, k);
    lemma_insert_pos(es, k);
    lemma_index_of_key(es, a);
    if p < es.len() && es[p].0 == k {
        assert forall|i: int| 0 <= i < es.len() implies (#[trigger] r[i]).0 == es[i].0 by {}
        if a == k {
            assert forall|i: int| 0 <= i < p implies r[i].0 != a by {
                text::lemma_lex_lt_irreflexive(a);
            }
            lemma_index_of_key_is(r, a, p);
        } else {
            match index_of_key(es, a) {
                Some(m) => {
                    lemma_index_of_key_is(r, a, m);
                },
                None => {
                    lemma_index_of_key_none(r, a);
                },
            }
        }
    } else {
        if a == k {
            assert forall|i: int| 0 <= i < p implies r[i].0 != a by {
                assert(r[i] == es[i]);
                text::lemma_lex_lt_irreflexive(a);
            }
            lemma_index_of_key_is(r, a, p);
        } else {
            match index_of_key(es, a) {
                Some(m) => {
                    if m < p {
                        assert forall|i: int| 0 <= i < m implies r[i].0 != a by {
                            assert(r[i] == es[i]);
                        }
                        assert(r[m] == es[m]);
                        lemma_index_of_key_is(r, a, m);
                    } else {
                        assert forall|i: int| 0 <= i < m + 1 implies r[i].0 != a by {
                            if i < p {
                                assert(r[i] == es[i]);
                            } else if i > p {
                                assert(r[i] == es[i - 1]);
                            }
                        }
                        assert(r[m + 1] == es[m]);
                        lemma_index_of_key_is(r, a, m + 1);
                    }
                },
                None => {
                    assert forall|i: int| 0 <= i < r.len() implies r[i].0 != a by {
                        if i < p {
                            assert(r[i] == es[i]);
                        } else if i > p {
                            assert(r[i] == es[i - 1]);
                        }
                    }
                    lemma_index_of_key_none(r, a);
                },
            }
        }
    }
}

// ---------------------------------------------------------------------------
// StatusMap
// ---------------------------------------------------------------------------

/// Address -> status map built from `adb devices` output.
pub struct StatusMap {
    entries: Vec<(String, String)>,
}

impl View for StatusMap {
    type V = Seq<Entry>;

    closed spec fn view(&self) -> Seq<Entry> {
        pair_views(self.entries@)
    }
}

impl StatusMap {
    /// Each key occurs once.
    #[verifier::type_invariant]
    spec fn keys_once(&self) -> bool {
        keys_unique(self@)
    }

    /// The empty map.
    pub fn new() -> (r: Self)
        ensures
            r@ == Seq::<Entry>::empty(),
    {
        let r = StatusMap { entries: Vec::new() };
        assert(r@ =~= Seq::<Entry>::empty());
        r
    }

    /// Writes `key -> value`, replacing the value of `key` when it is present.
    pub fn insert(&mut self, key: String, value: String)
        ensures
            final(self)@ == upsert(old(self)@, key@, value@),
    {
        proof {
            use_type_invariant(&*self);
            lemma_upsert_unique(self@, key@, value@);
        }
        let ghost es = self@;
        let ghost kv = key@;
        let ghost vv = value@;
        let mut entries: Vec<(String, String)> = Vec::new();
        std::mem::swap(&mut entries, &mut self.entries);
        let mut j: usize = 0;
        while j < entries.len()
            invariant
                j <= entries@.len(),
                pair_views(entries@) == es,
                kv == key@,
                vv == value@,
                es == old(self)@,
                keys_unique(upsert(es, kv, vv)),
                forall|i: int| 0 <= i < j ==> es[i].0 != kv,
            decreases entries@.len() - j,
        {
            assert(es[j as int].0 == entries@[j as int].0@);
            if entries[j].0 == key {
                proof {
                    lemma_index_of_key_is(es, kv, j as int);
                }
                entries.set(j, (key, value));
                assert(pair_views(entries@) =~= es.update(j as int, (kv, vv)));
                self.entries = entries;
                return;
            }
            j = j + 1;
        }
        proof {
            lemma_index_of_key_none(es, kv);
        }
        entries.push((key, value));
        assert(pair_views(entries@) =~= es.push((kv, vv)));
        self.entries = entries;
    }

    /// The value stored for `key`.
    pub fn get(&self, key: &str) -> (r: Option<&String>)
        ensures
            match r {
                Some(v) => lookup(self@, key@) == Some(v@),
                None => lookup(self@, key@) is None,
            },
    {
        let k = owned(key);
        let mut j: usize = 0;
        while j < self.entries.len()
            invariant
                j <= self.entries@.len(),
                k@ == key@,
                forall|i: int| 0 <= i < j ==> self@[i].0 != key@,
            decreases self.entries@.len() - j,
        {
            if self.entries[j].0 == k {
                proof {
                    lemma_index_of_key_is(self@, key@, j as int);
                }
                return Some(&self.entries[j].1);
            }
            j = j + 1;
        }
        proof {
            lemma_index_of_key_none(self@, key@);
        }
        None
    }

    /// Whether `key` has a value.
    pub fn contains_key(&self, key: &str) -> (r: bool)
        ensures
            r == (lookup(self@, key@) is Some),
    {
        self.get(key).is_some()
    }

    /// The number of entries.
    pub fn len(&self) -> (r: usize)
        ensures
            r == self@.len(),
    {
        self.entries.len()
    }

    /// Whether the map holds no entry.
    pub fn is_empty(&self) -> (r: bool)
        ensures
            r == (self@.len() == 0),
    {
        self.entries.len() == 0
    }

    /// The entries, in the order their keys were first written.
    pub fn entries(&self) -> (r: &Vec<(String, String)>)
        ensures
            pair_views(r@) == self@,
    {
        &self.entries
    }
}

// ---------------------------------------------------------------------------
// PropMap
// ---------------------------------------------------------------------------

/// Property name -> value map built from `getprop` output, sorted by name.
pub struct PropMap {
    entries: Vec<(String, String)>,
}

impl View for PropMap {
    type V = Seq<Entry>;

    closed spec fn view(&self) -> Seq<Entry> {
        pair_views(self.entries@)
    }
}

/// Whether the string `a` sorts before the characters `b`.
fn string_lex_lt(a: &String, b: &Vec<char>) -> (r: bool)
    ensures
        r == text::lex_lt(a@, b@),
{
    let av = chars_of(a.as_str());
    lex_lt_exec(&av, b)
}

impl PropMap {
    /// The keys are in ascending order, so each occurs once.
    #[verifier::type_invariant]
    spec fn keys_in_order(&self) -> bool {
        keys_sorted(self@)
    }

    /// The empty map.
    pub fn new() -> (r: Self)
        ensures
            r@ == Seq::<Entry>::empty(),
    {
        let r = PropMap { entries: Vec::new() };
        assert(r@ =~= Seq::<Entry>::empty());
        r
    }

    /// Writes `key -> value` at its sorted place, replacing the value of `key`
    /// when it is present.
    pub fn insert(&mut self, key: String, value: String)
        ensures
            final(self)@ == sorted_upsert(old(self)@, key@, value@),
    {
        proof {
            use_type_invariant(&*self);
            lemma_sorted_upsert_sorted(self@, key@, value@);
        }
        let ghost es = self@;
        let ghost kv = key@;
        let ghost vv = value@;
        let mut entries: Vec<(String, String)> = Vec::new();
        std::mem::swap(&mut entries, &mut self.entries);
        let kc = chars_of(key.as_str());
        let mut j: usize = 0;
        assert(es.skip(0) =~= es);
        while j < entries.len() && string_lex_lt(&entries[j].0, &kc)
            invariant
                j <= entries@.len(),
                pair_views(entries@) == es,
                kc@ == kv,
                insert_pos(es, kv) == j + insert_pos(es.skip(j as int), kv),
            decreases entries@.len() - j,
        {
            assert(es.skip(j as int).drop_first() =~= es.skip(j + 1));
            j = j + 1;
        }
        assert(insert_pos(es, kv) == j) by {
            if j < es.len() {
                assert(es.skip(j as int)[0] == es[j as int]);
            }
        }
        if j < entries.len() {
            assert(es[j as int].0 == entries@[j as int].0@);
        }
        if j < entries.len() && entries[j].0 == key {
            entries.set(j, (key, value));
            assert(pair_views(entries@) =~= es.update(j as int, (kv, vv)));
        } else {
            entries.insert(j, (key, value));
            assert(pair_views(entries@) =~= es.insert(j as int, (kv, vv)));
        }
        self.entries = entries;
    }

    /// The value stored for `key`.
    pub fn get(&self, key: &str) -> (r: Option<&String>)
        ensures
            match r {
                Some(v) => lookup(self@, key@) == Some(v@),
                None => lookup(self@, key@) is None,
            },
    {
        let k = owned(key);
        let mut j: usize = 0;
        while j < self.entries.len()
            invariant
                j <= self.entries@.len(),
                k@ == key@,
                forall|i: int| 0 <= i < j ==> self@[i].0 != key@,
            decreases self.entries@.len() - j,
        {
            if self.entries[j].0 == k {
                proof {
                    lemma_index_of_key_is(self@, key@, j as int);
                }
                return Some(&self.entries[j].1);
            }
            j = j + 1;
        }
        proof {
            lemma_index_of_key_none(self@, key@);
        }
        None
    }

    /// Whether `key` has a value.
    pub fn contains_key(&self, key: &str) -> (r: bool)
        ensures
            r == (lookup(self@, key@) is Some),
    {
        self.get(key).is_some()
    }

    /// The number of entries.
    pub fn len(&self) -> (r: usize)
        ensures
            r == self@.len(),
    {
        self.entries.len()
    }

    /// The entries, sorted by key.
    pub fn entries(&self) -> (r: &Vec<(String, String)>)
        ensures
            pair_views(r@) == self@,
    {
        &self.entries
    }
}

} // verus!
