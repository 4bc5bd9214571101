//! Per-call metadata: a string-keyed map of text or byte values, mutated only
//! by interceptors before a handler runs.
//!
//! The map keeps insertion order for inspection; inserting an existing key
//! overwrites its value in place, it never duplicates the key.

use vstd::prelude::*;

verus! {

/// A metadata value attached to a call: text or opaque bytes.
#[derive(Debug)]
pub enum MetaValue {
    /// A textual value.
    Text(String),
    /// An opaque byte value.
    Bytes(Vec<u8>),
}

/// The mathematical value of a [`MetaValue`].
pub enum MetaValueV {
    /// A textual value.
    Text(Seq<char>),
    /// An opaque byte value.
    Bytes(Seq<u8>),
}

impl View for MetaValue {
    type V = MetaValueV;

    open spec fn view(&self) -> MetaValueV {
        match self {
            MetaValue::Text(s) => MetaValueV::Text(s@),
            MetaValue::Bytes(b) => MetaValueV::Bytes(b@),
        }
    }
}

/// The mathematical value of a metadata map: its entries in insertion order.
pub type MetaEntries = Seq<(Seq<char>, MetaValueV)>;

/// Whether some entry of `m` carries the key `k`.
pub open spec fn contains_key(m: MetaEntries, k: Seq<char>) -> bool {
    exists|i: int| 0 <= i < m.len() && m[i].0 == k
}

/// No two entries of `m` carry the same key.
pub open spec fn unique_keys(m: MetaEntries) -> bool {
    forall|i: int, j: int| 0 <= i < j < m.len() ==> m[i].0 != m[j].0
}

/// The value of the first entry of `m` carrying the key `k`, if any.
pub open spec fn seq_get(m: MetaEntries, k: Seq<char>) -> Option<MetaValueV>
    decreases m.len(),
{
    if m.len() == 0 {
        None
    } else if m[0].0 == k {
        Some(m[0].1)
    } else {
        seq_get(m.drop_first(), k)
    }
}

/// `m` with `k` bound to `v`: the first entry carrying `k` is overwritten in
/// place, or the new entry is appended when no entry carries `k`.
pub open spec fn seq_insert(m: MetaEntries, k: Seq<char>, v: MetaValueV) -> MetaEntries
    decreases m.len(),
{
    if m.len() == 0 {
        seq![(k, v)]
    } else if m[0].0 == k {
        seq![(k, v)] + m.drop_first()
    } else {
        seq![m[0]] + seq_insert(m.drop_first(), k, v)
    }
}

/// Inserting never removes a key: every key of `m` is still a key of the
/// result, and the inserted key is one as well.
pub proof fn lemma_seq_insert_superset(m: MetaEntries, k: Seq<char>, v: MetaValueV)
    ensures
        forall|k2: Seq<char>| contains_key(m, k2) ==> contains_key(seq_insert(m, k, v), k2),
        contains_key(seq_insert(m, k, v), k),
        seq_insert(m, k, v).len() >= m.len(),
    decreases m.len(),
{
    let r = seq_insert(m, k, v);
    if m.len() == 0 {
        assert(r[0].0 == k);
    } else if m[0].0 == k {
        assert(r[0].0 == k);
        assert forall|k2: Seq<char>| contains_key(m, k2) implies contains_key(r, k2) by {
            let i = choose|i: int| 0 <= i < m.len() && m[i].0 == k2;
            if i == 0 {
                assert(r[0].0 == k2);
            } else {
                assert(r[i] == m[i]);
            }
        }
    } else {
        lemma_seq_insert_superset(m.drop_first(), k, v);
        let rr = seq_insert(m.drop_first(), k, v);
        let j = choose|j: int| 0 <= j < rr.len() && rr[j].0 == k;
        assert(r[j + 1].0 == k);
        assert forall|k2: Seq<char>| contains_key(m, k2) implies contains_key(r, k2) by {
            let i = choose|i: int| 0 <= i < m.len() && m[i].0 == k2;
            if i == 0 {
                assert(r[0].0 == k2);
            } else {
                assert(m.drop_first()[i - 1].0 == k2);
                assert(contains_key(m.drop_first(), k2));
                let j2 = choose|j2: int| 0 <= j2 < rr.len() && rr[j2].0 == k2;
                assert(r[j2 + 1].0 == k2);
            }
        }
    }
}

/// Inserting a binding twice leaves exactly what inserting it once leaves:
/// overwrite semantics, not duplication.
pub proof fn lemma_seq_insert_idempotent(m: MetaEntries, k: Seq<char>, v: MetaValueV)
    ensures
        seq_insert(seq_insert(m, k, v), k, v) == seq_insert(m, k, v),
    decreases m.len(),
{
    let r = seq_insert(m, k, v);
    if m.len() == 0 {
        assert(seq_insert(r, k, v) =~= r);
    } else if m[0].0 == k {
        assert(seq_insert(r, k, v) =~= r);
    } else {
        lemma_seq_insert_idempotent(m.drop_first(), k, v);
        assert(r[0] == m[0]);
        assert(r.drop_first() =~= seq_insert(m.drop_first(), k, v));
        assert(seq_insert(r, k, v) =~= r);
    }
}

/// After an insert, the inserted key reads back the inserted value and every
/// other key reads back what it read before.
pub proof fn lemma_seq_insert_get(m: MetaEntries, k: Seq<char>, v: MetaValueV)
    ensures
        seq_get(seq_insert(m, k, v), k) == Some(v),
        forall|k2: Seq<char>| k2 != k ==> seq_get(seq_insert(m, k, v), k2) == seq_get(m, k2),
    decreases m.len(),
{
    let r = seq_insert(m, k, v);
    if m.len() == 0 {
        assert forall|k2: Seq<char>| k2 != k implies seq_get(r, k2) == seq_get(m, k2) by {
            assert(r.drop_first() =~= m);
        }
    } else if m[0].0 == k {
        assert(r.drop_first() =~= m.drop_first());
        assert forall|k2: Seq<char>| k2 != k implies seq_get(r, k2) == seq_get(m, k2) by {
            assert(seq_get(r, k2) == seq_get(r.drop_first(), k2));
            assert(seq_get(m, k2) == seq_get(m.drop_first(), k2));
        }
    } else {
        lemma_seq_insert_get(m.drop_first(), k, v);
        assert(r[0] == m[0]);
        assert(r.drop_first() =~= seq_insert(m.drop_first(), k, v));
        assert forall|k2: Seq<char>| k2 != k implies seq_get(r, k2) == seq_get(m, k2) by {
            if r[0].0 != k2 {
                assert(seq_get(r, k2) == seq_get(r.drop_first(), k2));
                assert(seq_get(m, k2) == seq_get(m.drop_first(), k2));
            }
        }
    }
}

/// Inserting keeps keys unique.
pub proof fn lemma_seq_insert_unique(m: MetaEntries, k: Seq<char>, v: MetaValueV)
    requires
        unique_keys(m),
    ensures
        unique_keys(seq_insert(m, k, v)),
    decreases m.len(),
{
    let r = seq_insert(m, k, v);
    if m.len() == 0 {
    } else if m[0].0 == k {
        assert forall|i: int, j: int| 0 <= i < j < r.len() implies r[i].0 != r[j].0 by {
            assert(r[j] == m[j]);
            if i > 0 {
                assert(r[i] == m[i]);
            }
        }
    } else {
        lemma_seq_insert_unique(m.drop_first(), k, v);
        let rr = seq_insert(m.drop_first(), k, v);
        assert forall|i: int, j: int| 0 <= i < j < r.len() implies r[i].0 != r[j].0 by {
            assert(r[j] == rr[j - 1]);
            if i > 0 {
                assert(r[i] == rr[i - 1]);
            } else {
                assert(r[0] == m[0]);
                if rr[j - 1].0 == m[0].0 {
                    lemma_seq_insert_key_origin(m.drop_first(), k, v, j - 1);
                }
            }
        }
    }
}

/// Every key of an inserted sequence is either the inserted key or a key of
/// the original sequence.
pub proof fn lemma_seq_insert_key_origin(m: MetaEntries, k: Seq<char>, v: MetaValueV, i: int)
    requires
        0 <= i < seq_insert(m, k, v).len(),
    ensures
        seq_insert(m, k, v)[i].0 == k || contains_key(m, seq_insert(m, k, v)[i].0),
    decreases m.len(),
{
    let r = seq_insert(m, k, v);
    if m.len() == 0 {
    } else if m[0].0 == k {
        if i > 0 {
            assert(r[i] == m[i]);
        }
    } else {
        if i == 0 {
            assert(r[0] == m[0]);
        } else {
            lemma_seq_insert_key_origin(m.drop_first(), k, v, i - 1);
            let rr = seq_insert(m.drop_first(), k, v);
            assert(r[i] == rr[i - 1]);
            if rr[i - 1].0 != k {
                let j = choose|j: int| 0 <= j < m.drop_first().len() && m.drop_first()[j].0 == rr[i - 1].0;
                assert(m[j + 1].0 == rr[i - 1].0);
            }
        }
    }
}

/// The string-keyed metadata map attached to a call.
#[derive(Debug)]
pub struct MetadataMap {
    /// The entries, in insertion order, with no key repeated.
    pub entries: Vec<(String, MetaValue)>,
}

impl View for MetadataMap {
    type V = MetaEntries;

    open spec fn view(&self) -> MetaEntries {
        self.entries@.map_values(|p: (String, MetaValue)| (p.0@, p.1@))
    }
}

impl MetadataMap {
    /// The empty map.
    pub fn new() -> (m: MetadataMap)
        ensures
            m@ == MetaEntries::empty(),
            unique_keys(m@),
    {
        let m = MetadataMap { entries: Vec::new() };
        proof {
            assert(m@ =~= MetaEntries::empty());
        }
        m
    }

    /// The index of the first entry carrying `key`, if any.
    fn index_of(&self, key: &String) -> (r: Option<usize>)
        ensures
            match r {
                Some(i) => 0 <= i < self@.len() && self@[i as int].0 == key@ && forall|j: int|
                    0 <= j < i ==> self@[j].0 != key@,
                None => forall|j: int| 0 <= j < self@.len() ==> self@[j].0 != key@,
            },
    {
        let n = self.entries.len();
        let mut i: usize = 0;
        while i < n
            invariant
                n == self.entries.len(),
                0 <= i <= n,
                forall|j: int| 0 <= j < i ==> self@[j].0 != key@,
            decreases n - i,
        {
            if self.entries[i].0 == *key {
                assert(self@[i as int].0 == key@);
                return Some(i);
            }
            assert(self@[i as int].0 != key@);
            i = i + 1;
        }
        None
    }

    /// Binds `key` to `value`, overwriting the value in place when the key is
    /// already present and appending the entry when it is not.
    pub fn insert(&mut self, key: String, value: MetaValue)
        ensures
            final(self)@ == seq_insert(old(self)@, key@, value@),
    {
        let ghost m0 = self@;
        match self.index_of(&key) {
            Some(i) => {
                let e = &mut self.entries[i];
                *e = (key, value);
                proof {
                    lemma_seq_insert_at(m0, key@, value@, i as int);
                    assert(self@ =~= m0.update(i as int, (key@, value@)));
                }
            },
            None => {
                self.entries.push((key, value));
                proof {
                    lemma_seq_insert_absent(m0, key@, value@);
                    assert(self@ =~= m0.push((key@, value@)));
                }
            },
        }
    }

    /// The value bound to `key`, if any.
    pub fn get(&self, key: &String) -> (r: Option<&MetaValue>)
        ensures
            match r {
                Some(v) => seq_get(self@, key@) == Some(v@),
                None => seq_get(self@, key@) is None,
            },
    {
        match self.index_of(key) {
            Some(i) => {
                proof {
                    lemma_seq_get_at(self@, key@, i as int);
                }
                Some(&self.entries[i].1)
            },
            None => {
                proof {
                    lemma_seq_get_absent(self@, key@);
                }
                None
            },
        }
    }

    /// How many entries the map holds.
    pub fn len(&self) -> (n: usize)
        ensures
            n == self@.len(),
    {
        self.entries.len()
    }
}

/// When the first entry carrying `k` sits at index `i`, inserting `(k, v)`
/// overwrites exactly that entry.
proof fn lemma_seq_insert_at(m: MetaEntries, k: Seq<char>, v: MetaValueV, i: int)
    requires
        0 <= i < m.len(),
        m[i].0 == k,
        forall|j: int| 0 <= j < i ==> m[j].0 != k,
    ensures
        seq_insert(m, k, v) == m.update(i, (k, v)),
    decreases i,
{
    if i == 0 {
        assert(seq_insert(m, k, v) =~= m.update(0, (k, v)));
    } else {
        assert(m.drop_first()[i - 1].0 == k);
        lemma_seq_insert_at(m.drop_first(), k, v, i - 1);
        assert(seq_insert(m, k, v) =~= m.update(i, (k, v)));
    }
}

/// When no entry carries `k`, inserting `(k, v)` appends the entry.
proof fn lemma_seq_insert_absent(m: MetaEntries, k: Seq<char>, v: MetaValueV)
    requires
        forall|j: int| 0 <= j < m.len() ==> m[j].0 != k,
    ensures
        seq_insert(m, k, v) == m.push((k, v)),
    decreases m.len(),
{
    if m.len() == 0 {
        assert(seq_insert(m, k, v) =~= m.push((k, v)));
    } else {
        lemma_seq_insert_absent(m.drop_first(), k, v);
        assert(seq_insert(m, k, v) =~= m.push((k, v)));
    }
}

/// When the first entry carrying `k` sits at index `i`, reading `k` yields
/// that entry's value.
proof fn lemma_seq_get_at(m: MetaEntries, k: Seq<char>, i: int)
    requires
        0 <= i < m.len(),
        m[i].0 == k,
        forall|j: int| 0 <= j < i ==> m[j].0 != k,
    ensures
        seq_get(m, k) == Some(m[i].1),
    decreases i,
{
    if i == 0 {
    } else {
        assert(m.drop_first()[i - 1].0 == k);
        lemma_seq_get_at(m.drop_first(), k, i - 1);
    }
}

/// When no entry carries `k`, reading `k` yields nothing.
proof fn lemma_seq_get_absent(m: MetaEntries, k: Seq<char>)
    requires
        forall|j: int| 0 <= j < m.len() ==> m[j].0 != k,
    ensures
        seq_get(m, k) is None,
    decreases m.len(),
{
    if m.len() == 0 {
    } else {
        lemma_seq_get_absent(m.drop_first(), k);
    }
}

/// A key reads back a value exactly when some entry carries it.
pub proof fn lemma_seq_get_contains(m: MetaEntries, k: Seq<char>)
    ensures
        (seq_get(m, k) is Some) == contains_key(m, k),
    decreases m.len(),
{
    if m.len() == 0 {
    } else if m[0].0 == k {
        assert(contains_key(m, k));
    } else {
        lemma_seq_get_contains(m.drop_first(), k);
        if contains_key(m, k) {
            let i = choose|i: int| 0 <= i < m.len() && m[i].0 == k;
            assert(m.drop_first()[i - 1].0 == k);
            assert(contains_key(m.drop_first(), k));
        }
        if contains_key(m.drop_first(), k) {
            let i = choose|i: int| 0 <= i < m.drop_first().len() && m.drop_first()[i].0 == k;
            assert(m[i + 1].0 == k);
        }
    }
}

/// The per-call context handed down the interceptor chain: the call's
/// metadata, exclusively owned by the chain executing for one call.
#[derive(Debug)]
pub struct CallContext {
    /// The call's metadata.
    pub metadata: MetadataMap,
}

impl View for CallContext {
    type V = MetaEntries;

    open spec fn view(&self) -> MetaEntries {
        self.metadata@
    }
}

impl CallContext {
    /// A fresh context with no metadata, as created for an inbound call.
    pub fn new() -> (c: CallContext)
        ensures
            c@ == MetaEntries::empty(),
            unique_keys(c@),
    {
        CallContext { metadata: MetadataMap::new() }
    }
}

} // verus!
