//! Version-stamped cache entries. An entry is usable only for the version
//! of the mutation log it was computed at.

use vstd::prelude::*;
use crate::text::{append_chars, chars_of, replace_chars, replace_seq, same_chars, string_of};

verus! {

/// A payload and the length of the mutation log it was computed at.
#[derive(Debug)]
pub struct CacheEntry {
    pub version: usize,
    pub payload: Vec<u8>,
}

impl CacheEntry {
    /// Whether the entry was computed at `current_version`.
    pub open spec fn fresh(&self, current_version: usize) -> bool {
        self.version == current_version
    }

    /// Tests whether the entry was computed at `current_version`.
    pub fn is_fresh(&self, current_version: usize) -> (b: bool)
        ensures
            b == self.fresh(current_version),
    {
        self.version == current_version
    }
}

/// The payload to use at `current_version`: that of a fresh entry. A stale
/// entry yields nothing, so that its payload is computed anew.
pub fn usable_payload(entry: Option<CacheEntry>, current_version: usize) -> (r: Option<Vec<u8>>)
    ensures
        r is Some <==> entry is Some && entry->Some_0.fresh(current_version),
        r matches Some(p) ==> p@ == entry->Some_0.payload@,
{
    match entry {
        Some(e) => {
            if e.version == current_version {
                Some(e.payload)
            } else {
                None
            }
        },
        None => None,
    }
}

/// One stored entry and its key.
pub struct Slot {
    pub key: String,
    pub version: usize,
    pub payload: Vec<u8>,
}

/// A cache held in memory: at most one entry per key.
pub struct MemoryCache {
    slots: Vec<Slot>,
}

/// A stored version and payload as contracts see them.
pub struct Held {
    pub version: usize,
    pub payload: Seq<u8>,
}

/// What the first `upto` slots hold for `key`: the version and payload of
/// the last of them with this key.
pub open spec fn held(slots: Seq<Slot>, key: Seq<char>, upto: int) -> Option<Held>
    decreases upto,
{
    if upto <= 0 {
        None
    } else if slots[upto - 1].key@ == key {
        Some(Held { version: slots[upto - 1].version, payload: slots[upto - 1].payload@ })
    } else {
        held(slots, key, upto - 1)
    }
}

impl MemoryCache {
    /// What the cache holds for `key`.
    pub closed spec fn entry(&self, key: Seq<char>) -> Option<Held> {
        held(self.slots@, key, self.slots.len() as int)
    }

    /// A cache that holds nothing.
    pub fn new() -> (c: MemoryCache)
        ensures
            forall|key: Seq<char>| c.entry(key) is None,
    {
        MemoryCache { slots: Vec::new() }
    }

    /// Stores `payload` under `key` with its version, in place of what the
    /// key held before. Other keys keep what they hold.
    pub fn put(&mut self, key: &str, version: usize, payload: Vec<u8>)
        ensures
            final(self).entry(key@) == Some(Held { version: version, payload: payload@ }),
            forall|other: Seq<char>| other != key@ ==> final(self).entry(other) == old(self).entry(other),
    {
        let ghost before = self.slots@;
        self.slots.push(Slot { key: key.to_string(), version, payload });
        assert(self.slots@.len() == before.len() + 1);
        assert forall|other: Seq<char>| other != key@ implies self.entry(other) == old(self).entry(
            other,
        ) by {
            lemma_held_prefix(self.slots@, before, other, before.len() as int);
        }
    }

    /// What the cache holds for `key`.
    pub fn get(&self, key: &str) -> (r: Option<CacheEntry>)
        ensures
            match r {
                Some(e) => self.entry(key@) == Some(Held { version: e.version, payload: e.payload@ }),
                None => self.entry(key@) is None,
            },
    {
        let wanted = chars_of(key);
        let mut i: usize = self.slots.len();
        while i > 0
            invariant
                i <= self.slots.len(),
                wanted@ == key@,
                self.entry(key@) == held(self.slots@, key@, i as int),
            decreases i,
        {
            let slot = &self.slots[i - 1];
            if same_chars(&chars_of(slot.key.as_str()), &wanted) {
                return Some(CacheEntry { version: slot.version, payload: slot.payload.clone() });
            }
            i -= 1;
        }
        None
    }

    /// The payload stored under `key` if it was stored at `current_version`.
    /// A payload of another version is never returned.
    pub fn get_fresh(&self, key: &str, current_version: usize) -> (r: Option<Vec<u8>>)
        ensures
            r is Some <==> self.entry(key@) is Some && self.entry(key@)->Some_0.version
                == current_version,
            r matches Some(p) ==> p@ == self.entry(key@)->Some_0.payload,
    {
        usable_payload(self.get(key), current_version)
    }
}

proof fn lemma_held_prefix(a: Seq<Slot>, b: Seq<Slot>, key: Seq<char>, upto: int)
    requires
        0 <= upto <= b.len(),
        b.len() <= a.len(),
        forall|i: int| 0 <= i < b.len() ==> a[i] == b[i],
    ensures
        held(a, key, upto) == held(b, key, upto),
    decreases upto,
{
    if upto > 0 {
        lemma_held_prefix(a, b, key, upto - 1);
    }
}

/// What was stored is what comes back: where a key holds a version and a
/// payload, as `put` leaves it, a lookup of the key, as `get` answers it,
/// finds that version and that payload.
pub proof fn lemma_round_trip(
    cache: MemoryCache,
    key: Seq<char>,
    version: usize,
    payload: Seq<u8>,
    got: Option<CacheEntry>,
)
    requires
        cache.entry(key) == Some(Held { version: version, payload: payload }),
        match got {
            Some(e) => cache.entry(key) == Some(Held { version: e.version, payload: e.payload@ }),
            None => cache.entry(key) is None,
        },
    ensures
        got is Some,
        got->Some_0.version == version,
        got->Some_0.payload@ == payload,
{
}

/// The class name as a file name: without angle brackets, with `_` for
/// each colon and `\` for each slash.
pub open spec fn sanitized(class: Seq<char>) -> Seq<char> {
    replace_seq(
        replace_seq(replace_seq(replace_seq(class, "<"@, ""@), ">"@, ""@), ":"@, "_"@),
        "/"@,
        "\\"@,
    )
}

/// The cache key of the predicate analysis of `class` in `dataset`.
pub open spec fn analysis_key(dataset: Seq<char>, class: Seq<char>) -> Seq<char> {
    "./data/"@ + dataset + "/stat_anal/"@ + sanitized(class)
}

/// Computes the cache key of the predicate analysis of `class` in
/// `dataset`.
pub fn predicate_analysis_key(dataset: &str, class: &str) -> (key: String)
    ensures
        key@ == analysis_key(dataset@, class@),
{
    let empty: Vec<char> = Vec::new();
    assert(empty@ =~= ""@) by {
        reveal_strlit("");
    }
    let a = replace_chars(&chars_of(class), &chars_of("<"), &empty);
    let b = replace_chars(&a, &chars_of(">"), &empty);
    let c = replace_chars(&b, &chars_of(":"), &chars_of("_"));
    let d = replace_chars(&c, &chars_of("/"), &chars_of("\\"));
    let mut key = chars_of("./data/");
    append_chars(&mut key, &chars_of(dataset));
    append_chars(&mut key, &chars_of("/stat_anal/"));
    append_chars(&mut key, &d);
    string_of(&key)
}

} // verus!
