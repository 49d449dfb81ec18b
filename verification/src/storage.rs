//! Persistent key-value storage of strings.
//!
//! The store keeps its entries in memory and serialises them into a flat
//! byte format: every key and every value is written as a field, a
//! little-endian `u32` byte length followed by the UTF-8 bytes of the
//! string, and each entry is its key field followed by its value field.
//! Reading a stored image inserts the entries one after another, stopping
//! at the first field that is cut short or not valid UTF-8.

use crate::text::{str_eq, str_from_utf8};
use vstd::bytes::*;
use vstd::prelude::*;
use vstd::utf8::*;

verus! {

broadcast use {vstd::utf8::encode_utf8_decode_utf8, vstd::utf8::encode_utf8_valid_utf8};

/// The entries of a store, in the order in which `key` enumerates them.
pub type Entries = Seq<(Seq<char>, Seq<char>)>;

/// No key occurs twice.
pub open spec fn distinct_keys(e: Entries) -> bool {
    forall|i: int, j: int| 0 <= i < e.len() && 0 <= j < e.len() && i != j ==> e[i].0 != e[j].0
}

/// Some entry has key `k`.
pub open spec fn has_key(e: Entries, k: Seq<char>) -> bool {
    exists|j: int| 0 <= j < e.len() && e[j].0 == k
}

/// The position of the entry with key `k`, or -1 where there is none.
pub open spec fn find_key(e: Entries, k: Seq<char>) -> int {
    if has_key(e, k) {
        choose|j: int| 0 <= j < e.len() && e[j].0 == k
    } else {
        -1
    }
}

/// The value stored under `k`.
pub open spec fn lookup(e: Entries, k: Seq<char>) -> Option<Seq<char>> {
    if has_key(e, k) {
        Some(e[find_key(e, k)].1)
    } else {
        None
    }
}

/// The entries after storing `v` under `k`: an existing entry keeps its
/// place and takes the new value, a new key is appended.
pub open spec fn put(e: Entries, k: Seq<char>, v: Seq<char>) -> Entries {
    if has_key(e, k) {
        e.update(find_key(e, k), (k, v))
    } else {
        e.push((k, v))
    }
}

/// The entries after removing the key `k`.
pub open spec fn remove_key(e: Entries, k: Seq<char>) -> Entries {
    if has_key(e, k) {
        e.remove(find_key(e, k))
    } else {
        e
    }
}

/// The entries after storing each pair of `pairs` in turn.
pub open spec fn put_all(e: Entries, pairs: Entries) -> Entries
    decreases pairs.len(),
{
    if pairs.len() == 0 {
        e
    } else {
        put_all(put(e, pairs[0].0, pairs[0].1), pairs.drop_first())
    }
}

/// The stored form of a byte length: its value modulo 2^32.
pub open spec fn wire_len(n: nat) -> u32 {
    (n % 0x1_0000_0000) as u32
}

/// A string as one field: the length of its UTF-8 bytes, as a
/// little-endian `u32`, then those bytes.
pub open spec fn encode_field(s: Seq<char>) -> Seq<u8> {
    spec_u32_to_le_bytes(wire_len(encode_utf8(s).len())) + encode_utf8(s)
}

/// One entry as stored: its key field, then its value field.
pub open spec fn encode_pair(p: (Seq<char>, Seq<char>)) -> Seq<u8> {
    encode_field(p.0) + encode_field(p.1)
}

/// The stored image of a sequence of entries.
pub open spec fn encode_entries(e: Entries) -> Seq<u8>
    decreases e.len(),
{
    if e.len() == 0 {
        Seq::empty()
    } else {
        encode_pair(e[0]) + encode_entries(e.drop_first())
    }
}

/// The field that starts at byte `i` of `data`, with the position just
/// after it, or `None` where the field is cut short or is not UTF-8.
pub open spec fn parse_field(data: Seq<u8>, i: int) -> Option<(Seq<char>, int)> {
    if 0 <= i && i + 4 <= data.len() {
        let end = i + 4 + spec_u32_from_le_bytes(data.subrange(i, i + 4));
        if end <= data.len() && valid_utf8(data.subrange(i + 4, end)) {
            Some((decode_utf8(data.subrange(i + 4, end)), end))
        } else {
            None
        }
    } else {
        None
    }
}

/// The entries read from `data`, starting at byte `i`: pairs of fields are
/// read while bytes remain, and reading stops at the first pair that
/// cannot be read whole.
pub open spec fn decode_pairs(data: Seq<u8>, i: int) -> Entries
    decreases data.len() - i,
{
    if 0 <= i < data.len() {
        match parse_field(data, i) {
            Some((k, ni)) => match parse_field(data, ni) {
                Some((v, nj)) => {
                    if i < nj {
                        seq![(k, v)] + decode_pairs(data, nj)
                    } else {
                        Seq::empty()
                    }
                },
                None => Seq::empty(),
            },
            None => Seq::empty(),
        }
    } else {
        Seq::empty()
    }
}

/// Whether every key and value has a byte length that the format can hold.
pub open spec fn fits_format(e: Entries) -> bool {
    forall|j: int|
        0 <= j < e.len() ==> encode_utf8(#[trigger] e[j].0).len() <= u32::MAX && encode_utf8(
            e[j].1,
        ).len() <= u32::MAX
}

/// The characters of an optional string.
pub open spec fn opt_view(o: Option<String>) -> Option<Seq<char>> {
    match o {
        Some(s) => Some(s@),
        None => None,
    }
}

/// Reads the field that starts at byte `i` of `data`, giving its string
/// and the position just after it.
pub fn read_field(data: &[u8], i: usize) -> (r: Option<(String, usize)>)
    ensures
        match parse_field(data@, i as int) {
            Some((s, end)) => r matches Some((t, e)) && t@ == s && e == end,
            None => r is None,
        },
{
    if i > data.len() || data.len() - i < 4 {
        return None;
    }
    let len_end = i + 4;
    let len = u32_from_le_bytes(&data[i..len_end]) as usize;
    if len > data.len() - len_end {
        return None;
    }
    let end = len_end + len;
    match str_from_utf8(&data[len_end..end]) {
        Some(s) => Some((s.to_owned(), end)),
        None => None,
    }
}

/// Appends the field of `s` to `out`.
pub fn write_field(out: &mut Vec<u8>, s: &str)
    ensures
        final(out)@ == old(out)@ + encode_field(s@),
{
    let bytes = s.as_bytes();
    let n = bytes.len();
    let wire = (n as u64 % 0x1_0000_0000) as u32;
    assert(wire == wire_len(encode_utf8(s@).len()));
    let prefix = u32_to_le_bytes(wire);
    let ghost before = out@;
    out.extend_from_slice(prefix.as_slice());
    out.extend_from_slice(bytes);
    assert(out@ =~= before + encode_field(s@));
}

/// The in-memory entries of a store.
pub struct Inner {
    entries: Vec<(String, String)>,
}

impl View for Inner {
    type V = Entries;

    closed spec fn view(&self) -> Entries {
        self.entries@.map_values(|p: (String, String)| (p.0@, p.1@))
    }
}

impl Inner {
    #[verifier::type_invariant]
    closed spec fn inv(&self) -> bool {
        distinct_keys(self@)
    }

    /// An empty store.
    pub fn new() -> (r: Self)
        ensures
            distinct_keys(r@),
            r@ == Seq::<(Seq<char>, Seq<char>)>::empty(),
    {
        let r = Inner { entries: Vec::new() };
        assert(r@ =~= Seq::<(Seq<char>, Seq<char>)>::empty());
        r
    }

    fn position(&self, key: &str) -> (r: Option<usize>)
        ensures
            match r {
                Some(j) => j < self@.len() && has_key(self@, key@) && find_key(self@, key@) == j,
                None => !has_key(self@, key@),
            },
    {
        proof {
            use_type_invariant(self);
        }
        let n = self.entries.len();
        let mut j: usize = 0;
        while j < n
            invariant
                n == self.entries@.len(),
                n == self@.len(),
                j <= n,
                distinct_keys(self@),
                forall|i: int| 0 <= i < j ==> self@[i].0 != key@,
            decreases n - j,
        {
            if str_eq(self.entries[j].0.as_str(), key) {
                proof {
                    assert(self@[j as int].0 == key@);
                    let c = choose|i: int| 0 <= i < self@.len() && self@[i].0 == key@;
                    assert(c == j as int);
                }
                return Some(j);
            }
            j = j + 1;
        }
        None
    }

    /// The value stored under `key`.
    pub fn get(&self, key: &str) -> (r: Option<String>)
        ensures
            opt_view(r) == lookup(self@, key@),
    {
        match self.position(key) {
            Some(j) => Some(self.entries[j].1.clone()),
            None => None,
        }
    }

    fn insert_owned(&mut self, key: String, value: String)
        ensures
            distinct_keys(final(self)@),
            final(self)@ == put(old(self)@, key@, value@),
    {
        proof {
            use_type_invariant(&*self);
        }
        let pos = self.position(key.as_str());
        let ghost e = self@;
        let mut v: Vec<(String, String)> = Vec::new();
        std::mem::swap(&mut v, &mut self.entries);
        assert(v@.map_values(|p: (String, String)| (p.0@, p.1@)) == e);
        let ghost kv = (key@, value@);
        match pos {
            Some(j) => {
                v.set(j, (key, value));
                assert(v@.map_values(|p: (String, String)| (p.0@, p.1@)) =~= e.update(j as int, kv));
            },
            None => {
                v.push((key, value));
                assert(v@.map_values(|p: (String, String)| (p.0@, p.1@)) =~= e.push(kv));
            },
        }
        assert(distinct_keys(put(e, kv.0, kv.1)));
        self.entries = v;
    }

    /// Stores `value` under `key`.
    pub fn set(&mut self, key: &str, value: &str)
        ensures
            distinct_keys(final(self)@),
            final(self)@ == put(old(self)@, key@, value@),
    {
        self.insert_owned(key.to_owned(), value.to_owned());
    }

    /// Removes `key` and its value, if present.
    pub fn remove(&mut self, key: &str)
        ensures
            distinct_keys(final(self)@),
            final(self)@ == remove_key(old(self)@, key@),
    {
        proof {
            use_type_invariant(&*self);
        }
        match self.position(key) {
            Some(j) => {
                let ghost e = self@;
                let mut v: Vec<(String, String)> = Vec::new();
                std::mem::swap(&mut v, &mut self.entries);
                assert(v@.map_values(|p: (String, String)| (p.0@, p.1@)) == e);
                v.remove(j);
                assert(v@.map_values(|p: (String, String)| (p.0@, p.1@)) =~= e.remove(j as int));
                assert(distinct_keys(e.remove(j as int)));
                self.entries = v;
            },
            None => {},
        }
        proof {
            use_type_invariant(&*self);
        }
    }

    /// Removes every entry.
    pub fn clear(&mut self)
        ensures
            distinct_keys(final(self)@),
            final(self)@ == Seq::<(Seq<char>, Seq<char>)>::empty(),
    {
        self.entries = Vec::new();
        assert(self@ =~= Seq::<(Seq<char>, Seq<char>)>::empty());
        proof {
            use_type_invariant(&*self);
        }
    }

    /// The number of entries.
    pub fn len(&self) -> (n: usize)
        ensures
            n == self@.len(),
    {
        self.entries.len()
    }

    /// The key of the entry at `index`, if there is one.
    pub fn key(&self, index: usize) -> (r: Option<String>)
        ensures
            opt_view(r) == (if index < self@.len() {
                Some(self@[index as int].0)
            } else {
                None
            }),
    {
        if index < self.entries.len() {
            Some(self.entries[index].0.clone())
        } else {
            None
        }
    }

    /// Inserts, one after another, the entries stored in `data`.
    pub fn load(&mut self, data: &[u8])
        ensures
            distinct_keys(final(self)@),
            final(self)@ == put_all(old(self)@, decode_pairs(data@, 0)),
    {
        let ghost goal = put_all(self@, decode_pairs(data@, 0));
        let mut i: usize = 0;
        while i < data.len()
            invariant
                i <= data@.len(),
                put_all(self@, decode_pairs(data@, i as int)) == goal,
            ensures
                self@ == goal,
            decreases data@.len() - i,
        {
            let Some((k, ni)) = read_field(data, i) else {
                assert(decode_pairs(data@, i as int) =~= Seq::<(Seq<char>, Seq<char>)>::empty());
                break;
            };
            let Some((v, nj)) = read_field(data, ni) else {
                assert(decode_pairs(data@, i as int) =~= Seq::<(Seq<char>, Seq<char>)>::empty());
                break;
            };
            proof {
                let pairs = decode_pairs(data@, i as int);
                assert(pairs =~= seq![(k@, v@)] + decode_pairs(data@, nj as int));
                assert(pairs.drop_first() =~= decode_pairs(data@, nj as int));
            }
            self.insert_owned(k, v);
            i = nj;
            if i >= data.len() {
                assert(decode_pairs(data@, i as int) =~= Seq::<(Seq<char>, Seq<char>)>::empty());
            }
        }
        proof {
            use_type_invariant(&*self);
        }
    }

    /// The stored image of the entries.
    pub fn save(&self) -> (bytes: Vec<u8>)
        ensures
            bytes@ == encode_entries(self@),
    {
        let mut out: Vec<u8> = Vec::new();
        let n = self.entries.len();
        let mut j: usize = 0;
        assert(self@.subrange(0, n as int) =~= self@);
        assert(out@ + encode_entries(self@) =~= encode_entries(self@));
        while j < n
            invariant
                n == self@.len(),
                j <= n,
                out@ + encode_entries(self@.subrange(j as int, n as int)) == encode_entries(self@),
            decreases n - j,
        {
            proof {
                let rest = self@.subrange(j as int, n as int);
                assert(rest.drop_first() =~= self@.subrange(j + 1, n as int));
                assert(rest[0] == self@[j as int]);
            }
            write_field(&mut out, self.entries[j].0.as_str());
            write_field(&mut out, self.entries[j].1.as_str());
            proof {
                let rest = self@.subrange(j as int, n as int);
                assert(encode_entries(rest) == encode_pair(rest[0]) + encode_entries(rest.drop_first()));
                assert(out@ + encode_entries(self@.subrange(j + 1, n as int)) =~= encode_entries(self@));
            }
            j = j + 1;
        }
        proof {
            assert(self@.subrange(n as int, n as int) =~= Seq::<(Seq<char>, Seq<char>)>::empty());
            assert(out@ + Seq::<u8>::empty() =~= out@);
        }
        out
    }
}

/// A store whose every change gives back the image to persist.
pub struct Storage {
    inner: Inner,
}

impl View for Storage {
    type V = Entries;

    closed spec fn view(&self) -> Entries {
        self.inner@
    }
}

impl Storage {
    /// The store held in the stored image `data` (empty data gives an empty
    /// store).
    pub fn open(data: &[u8]) -> (r: Storage)
        ensures
            distinct_keys(r@),
            r@ == put_all(Seq::empty(), decode_pairs(data@, 0)),
    {
        let mut inner = Inner::new();
        inner.load(data);
        Storage { inner }
    }

    /// The value stored under `key`.
    pub fn get(&self, key: &str) -> (r: Option<String>)
        ensures
            distinct_keys(self@),
            opt_view(r) == lookup(self@, key@),
    {
        proof {
            use_type_invariant(&self.inner);
        }
        self.inner.get(key)
    }

    /// Stores `value` under `key`; gives back the image to persist. A read
    /// of `key` then gives `value`, every other key keeps its value, and
    /// the number of entries grows by one exactly when `key` was new.
    pub fn set(&mut self, key: &str, value: &str) -> (image: Vec<u8>)
        ensures
            distinct_keys(final(self)@),
            final(self)@ == put(old(self)@, key@, value@),
            lookup(final(self)@, key@) == Some(value@),
            forall|k: Seq<char>| k != key@ ==> lookup(final(self)@, k) == lookup(old(self)@, k),
            final(self)@.len() == if has_key(old(self)@, key@) {
                old(self)@.len() as int
            } else {
                old(self)@.len() + 1int
            },
            image@ == encode_entries(final(self)@),
    {
        proof {
            use_type_invariant(&self.inner);
            lemma_get_after_set(self@, key@, value@);
        }
        self.inner.set(key, value);
        self.inner.save()
    }

    /// Removes `key`; gives back the image to persist. A read of `key` then
    /// gives nothing, every other key keeps its value, and the number of
    /// entries shrinks by one exactly when `key` was present.
    pub fn remove(&mut self, key: &str) -> (image: Vec<u8>)
        ensures
            distinct_keys(final(self)@),
            final(self)@ == remove_key(old(self)@, key@),
            lookup(final(self)@, key@) is None,
            forall|k: Seq<char>| k != key@ ==> lookup(final(self)@, k) == lookup(old(self)@, k),
            final(self)@.len() == if has_key(old(self)@, key@) {
                old(self)@.len() - 1
            } else {
                old(self)@.len() as int
            },
            !has_key(old(self)@, key@) ==> final(self)@ == old(self)@,
            image@ == encode_entries(final(self)@),
    {
        proof {
            use_type_invariant(&self.inner);
            lemma_get_after_remove(self@, key@);
        }
        self.inner.remove(key);
        self.inner.save()
    }

    /// Removes every entry; gives back the image to persist.
    pub fn clear(&mut self) -> (image: Vec<u8>)
        ensures
            distinct_keys(final(self)@),
            final(self)@ == Seq::<(Seq<char>, Seq<char>)>::empty(),
            image@ == encode_entries(final(self)@),
    {
        self.inner.clear();
        self.inner.save()
    }

    /// The number of entries; the keys of the entries are distinct.
    pub fn len(&self) -> (n: usize)
        ensures
            distinct_keys(self@),
            n == self@.len(),
    {
        proof {
            use_type_invariant(&self.inner);
        }
        self.inner.len()
    }

    /// Whether the store has no entry.
    pub fn is_empty(&self) -> (r: bool)
        ensures
            r == (self@.len() == 0),
    {
        self.len() == 0
    }

    /// The key of the entry at `index`, if there is one; the keys of the
    /// entries are distinct, so the indices below `len` enumerate each key
    /// once.
    pub fn key(&self, index: usize) -> (r: Option<String>)
        ensures
            distinct_keys(self@),
            opt_view(r) == (if index < self@.len() {
                Some(self@[index as int].0)
            } else {
                None
            }),
    {
        proof {
            use_type_invariant(&self.inner);
        }
        self.inner.key(index)
    }

    /// The image of the whole store.
    pub fn save(&self) -> (image: Vec<u8>)
        ensures
            image@ == encode_entries(self@),
    {
        self.inner.save()
    }
}

/// Storing a value and then reading the same key gives that value; other
/// keys keep their values; the keys stay distinct, and the number of
/// entries grows by one exactly when the key was new.
pub proof fn lemma_get_after_set(e: Entries, k: Seq<char>, v: Seq<char>)
    requires
        distinct_keys(e),
    ensures
        lookup(put(e, k, v), k) == Some(v),
        forall|k2: Seq<char>| k2 != k ==> lookup(put(e, k, v), k2) == lookup(e, k2),
        distinct_keys(put(e, k, v)),
        put(e, k, v).len() == if has_key(e, k) { e.len() } else { e.len() + 1 },
{
    let p = put(e, k, v);
    assert(has_key(p, k)) by {
        if has_key(e, k) {
            assert(p[find_key(e, k)].0 == k);
        } else {
            assert(p[e.len() as int].0 == k);
        }
    }
    let c = find_key(p, k);
    if has_key(e, k) {
        assert(c == find_key(e, k));
    } else {
        assert(c == e.len());
    }
    assert forall|k2: Seq<char>| k2 != k implies lookup(p, k2) == lookup(e, k2) by {
        if has_key(e, k2) {
            let j = find_key(e, k2);
            assert(p[j].0 == k2);
            assert(find_key(p, k2) == j);
        } else {
            if has_key(p, k2) {
                let j = find_key(p, k2);
                assert(e[j].0 == k2);
            }
        }
    }
}

/// Removing a key leaves it without a value, keeps the values of the other
/// keys, and keeps the keys distinct.
pub proof fn lemma_get_after_remove(e: Entries, k: Seq<char>)
    requires
        distinct_keys(e),
    ensures
        lookup(remove_key(e, k), k) is None,
        forall|k2: Seq<char>| k2 != k ==> lookup(remove_key(e, k), k2) == lookup(e, k2),
        distinct_keys(remove_key(e, k)),
        remove_key(e, k).len() == if has_key(e, k) { e.len() - 1 } else { e.len() as int },
{
    let r = remove_key(e, k);
    if has_key(e, k) {
        let j = find_key(e, k);
        assert forall|i: int| 0 <= i < r.len() implies r[i] == if i < j { e[i] } else { e[i + 1] } by {}
        assert(!has_key(r, k)) by {
            if has_key(r, k) {
                let i = choose|i: int| 0 <= i < r.len() && r[i].0 == k;
                if i < j {
                    assert(e[i].0 == k);
                } else {
                    assert(e[i + 1].0 == k);
                }
            }
        }
        assert forall|k2: Seq<char>| k2 != k implies lookup(r, k2) == lookup(e, k2) by {
            if has_key(e, k2) {
                let i = find_key(e, k2);
                assert(i != j);
                let ri = if i < j { i } else { i - 1 };
                assert(r[ri].0 == k2);
                assert(find_key(r, k2) == ri);
            } else {
                if has_key(r, k2) {
                    let i = find_key(r, k2);
                    if i < j {
                        assert(e[i].0 == k2);
                    } else {
                        assert(e[i + 1].0 == k2);
                    }
                }
            }
        }
    }
}

/// Every enumerated key reads back the value stored beside it.
pub proof fn lemma_enumerated_keys(e: Entries, i: int)
    requires
        distinct_keys(e),
        0 <= i < e.len(),
    ensures
        lookup(e, e[i].0) == Some(e[i].1),
{
    assert(has_key(e, e[i].0));
    assert(find_key(e, e[i].0) == i);
}

/// A field reads back as the string it was written from, whatever bytes
/// stand before and after it, wherever the string's byte length fits the
/// format.
pub proof fn lemma_parse_encoded_field(p: Seq<u8>, s: Seq<char>, r: Seq<u8>)
    requires
        encode_utf8(s).len() <= u32::MAX,
    ensures
        parse_field(p + encode_field(s) + r, p.len() as int) == Some(
            (s, p.len() + encode_field(s).len() as int),
        ),
        encode_field(s).len() == 4 + encode_utf8(s).len(),
{
    lemma_auto_spec_u32_to_from_le_bytes();
    let data = p + encode_field(s) + r;
    let b = encode_utf8(s);
    let w = wire_len(b.len());
    assert(w == b.len());
    let i = p.len() as int;
    assert(data.subrange(i, i + 4) =~= spec_u32_to_le_bytes(w));
    assert(data.subrange(i + 4, i + 4 + b.len()) =~= b);
}

proof fn lemma_parse_shift(p: Seq<u8>, t: Seq<u8>, i: int)
    requires
        0 <= i,
    ensures
        parse_field(p + t, p.len() + i) == match parse_field(t, i) {
            Some((s, end)) => Some((s, end + p.len())),
            None => None,
        },
{
    let d = p + t;
    let o = p.len() as int;
    if i + 4 <= t.len() {
        assert(d.subrange(o + i, o + i + 4) =~= t.subrange(i, i + 4));
        let end = i + 4 + spec_u32_from_le_bytes(t.subrange(i, i + 4));
        if end <= t.len() {
            assert(d.subrange(o + i + 4, o + end) =~= t.subrange(i + 4, end));
        }
    }
}

proof fn lemma_decode_shift(p: Seq<u8>, t: Seq<u8>, i: int)
    requires
        0 <= i,
    ensures
        decode_pairs(p + t, p.len() + i) == decode_pairs(t, i),
    decreases t.len() - i,
{
    lemma_parse_shift(p, t, i);
    if i < t.len() {
        if let Some((k, ni)) = parse_field(t, i) {
            lemma_parse_shift(p, t, ni);
            if let Some((v, nj)) = parse_field(t, ni) {
                if i < nj {
                    lemma_decode_shift(p, t, nj);
                }
            }
        }
    }
}

proof fn lemma_decode_encoded(p: Seq<u8>, e: Entries, t: Seq<u8>)
    requires
        fits_format(e),
    ensures
        decode_pairs(p + encode_entries(e) + t, p.len() as int) == e + decode_pairs(t, 0),
    decreases e.len(),
{
    if e.len() == 0 {
        assert(p + encode_entries(e) + t =~= p + t);
        lemma_decode_shift(p, t, 0);
        assert(e + decode_pairs(t, 0) =~= decode_pairs(t, 0));
    } else {
        let k = e[0].0;
        let v = e[0].1;
        let rest = e.drop_first();
        assert(fits_format(rest)) by {
            assert forall|j: int| 0 <= j < rest.len() implies encode_utf8(#[trigger] rest[j].0).len()
                <= u32::MAX && encode_utf8(rest[j].1).len() <= u32::MAX by {
                assert(rest[j] == e[j + 1]);
            }
        }
        let tail = encode_entries(rest) + t;
        let data = p + encode_entries(e) + t;
        assert(encode_utf8(e[0].0).len() <= u32::MAX);
        lemma_parse_encoded_field(p, k, encode_field(v) + tail);
        assert(data =~= p + encode_field(k) + (encode_field(v) + tail));
        let p1 = p + encode_field(k);
        lemma_parse_encoded_field(p1, v, tail);
        assert(data =~= p1 + encode_field(v) + tail);
        let p2 = p1 + encode_field(v);
        assert(data =~= p2 + encode_entries(rest) + t);
        lemma_decode_encoded(p2, rest, t);
        assert(decode_pairs(data, p.len() as int) =~= seq![(k, v)] + (rest + decode_pairs(t, 0)));
        assert(seq![(k, v)] + (rest + decode_pairs(t, 0)) =~= e + decode_pairs(t, 0));
    }
}

proof fn lemma_put_all_append(acc: Entries, a: Entries, b: Entries)
    ensures
        put_all(acc, a + b) == put_all(put_all(acc, a), b),
    decreases a.len(),
{
    if a.len() == 0 {
        assert(a + b =~= b);
    } else {
        assert((a + b).drop_first() =~= a.drop_first() + b);
        assert((a + b)[0] == a[0]);
        lemma_put_all_append(put(acc, a[0].0, a[0].1), a.drop_first(), b);
    }
}

proof fn lemma_put_all_fresh(acc: Entries, e: Entries)
    requires
        distinct_keys(acc + e),
    ensures
        put_all(acc, e) == acc + e,
    decreases e.len(),
{
    if e.len() == 0 {
        assert(acc + e =~= acc);
    } else {
        let x = e[0];
        assert(!has_key(acc, x.0)) by {
            if has_key(acc, x.0) {
                let j = choose|j: int| 0 <= j < acc.len() && acc[j].0 == x.0;
                assert((acc + e)[j].0 == (acc + e)[acc.len() as int].0);
            }
        }
        assert(acc.push(x) + e.drop_first() =~= acc + e);
        lemma_put_all_fresh(acc.push(x), e.drop_first());
    }
}

/// Opening the image that a store saves gives back the same entries, in
/// the same order, wherever every key and value fits the format.
pub proof fn lemma_save_then_open(e: Entries)
    requires
        distinct_keys(e),
        fits_format(e),
    ensures
        put_all(Seq::empty(), decode_pairs(encode_entries(e), 0)) == e,
{
    lemma_open_with_tail(e, Seq::empty());
    assert(encode_entries(e) + Seq::<u8>::empty() =~= encode_entries(e));
}

/// Whether `t` begins with a whole entry: a readable key field followed by
/// a readable value field.
pub open spec fn begins_with_pair(t: Seq<u8>) -> bool {
    parse_field(t, 0) matches Some((_, ni)) && parse_field(t, ni) is Some
}

/// Opening the image that a store saves, followed by further bytes `t`,
/// gives back the saved entries with the entries that can be read from `t`
/// stored over them in turn; where `t` does not begin with a whole entry
/// (it is empty, cut short or malformed), exactly the saved entries.
pub proof fn lemma_open_with_tail(e: Entries, t: Seq<u8>)
    requires
        distinct_keys(e),
        fits_format(e),
    ensures
        put_all(Seq::empty(), decode_pairs(encode_entries(e) + t, 0)) == put_all(
            e,
            decode_pairs(t, 0),
        ),
        !begins_with_pair(t) ==> put_all(Seq::empty(), decode_pairs(encode_entries(e) + t, 0))
            == e,
{
    let empty = Seq::<(Seq<char>, Seq<char>)>::empty();
    lemma_decode_encoded(Seq::empty(), e, t);
    assert(Seq::<u8>::empty() + encode_entries(e) + t =~= encode_entries(e) + t);
    lemma_put_all_append(empty, e, decode_pairs(t, 0));
    assert(empty + e =~= e);
    lemma_put_all_fresh(empty, e);
    if !begins_with_pair(t) {
        assert(decode_pairs(t, 0) =~= empty);
    }
}

} // verus!
