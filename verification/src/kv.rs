//! The key-value store of cached values: a value is written under a key
//! with an optional time to live, read back until it expires (a stale entry
//! is removed when read), and deleted on request.

use vstd::prelude::*;
use crate::ops::{stale, expiry_after, cache_expiry, cache_expired};
use crate::text::str_equals;

verus! {

/// A stored value: its key, the value (as JSON text) and when it expires
/// (seconds; never when `None`).
#[derive(Clone, Debug)]
pub struct KvEntry {
    pub key: String,
    pub value: String,
    pub expires_at: Option<i64>,
}

/// The store: its entries in the order they were written.
pub struct KvStore {
    entries: Vec<KvEntry>,
}

/// What a key holds: the value and its expiry.
pub type KvSlot = (Seq<char>, Option<i64>);

/// The contents of entries written in order: a later entry for a key takes
/// the place of an earlier one.
pub open spec fn entries_map(s: Seq<KvEntry>) -> Map<Seq<char>, KvSlot>
    decreases s.len(),
{
    if s.len() == 0 {
        Map::empty()
    } else {
        entries_map(s.drop_last()).insert(s.last().key@, (s.last().value@, s.last().expires_at))
    }
}

/// What reading `key` at `now` gives from the contents `m`: its value while
/// it has not expired.
pub open spec fn kv_read(m: Map<Seq<char>, KvSlot>, key: Seq<char>, now: int) -> Option<Seq<char>> {
    if m.dom().contains(key) && !stale(m[key].1, now) {
        Some(m[key].0)
    } else {
        None
    }
}

/// The contents after writing `value` under `key` at `now` for `ttl`
/// seconds (for ever without one).
pub open spec fn kv_written(
    m: Map<Seq<char>, KvSlot>,
    key: Seq<char>,
    value: Seq<char>,
    now: i64,
    ttl: Option<i64>,
) -> Map<Seq<char>, KvSlot> {
    m.insert(key, (value, expiry_after(now, ttl)))
}

impl View for KvStore {
    type V = Map<Seq<char>, KvSlot>;

    closed spec fn view(&self) -> Map<Seq<char>, KvSlot> {
        entries_map(self.entries@)
    }
}

/// The entries without those for `key`, in order.
spec fn without_key(s: Seq<KvEntry>, key: Seq<char>) -> Seq<KvEntry>
    decreases s.len(),
{
    if s.len() == 0 {
        s
    } else if s.last().key@ == key {
        without_key(s.drop_last(), key)
    } else {
        without_key(s.drop_last(), key).push(s.last())
    }
}

proof fn lemma_without_key(s: Seq<KvEntry>, key: Seq<char>)
    ensures
        entries_map(without_key(s, key)) == entries_map(s).remove(key),
    decreases s.len(),
{
    if s.len() > 0 {
        lemma_without_key(s.drop_last(), key);
        let w = without_key(s.drop_last(), key);
        if s.last().key@ != key {
            assert(w.push(s.last()).drop_last() =~= w);
        }
        assert(entries_map(without_key(s, key)) =~= entries_map(s).remove(key));
    }
}

/// The position of the last entry for `key`, if any.
spec fn last_for(s: Seq<KvEntry>, key: Seq<char>) -> Option<int>
    decreases s.len(),
{
    if s.len() == 0 {
        None
    } else if s.last().key@ == key {
        Some(s.len() - 1)
    } else {
        last_for(s.drop_last(), key)
    }
}

proof fn lemma_last_for(s: Seq<KvEntry>, key: Seq<char>)
    ensures
        entries_map(s).dom().contains(key) <==> last_for(s, key) is Some,
        last_for(s, key) is Some ==> {
            let i = last_for(s, key)->Some_0;
            &&& 0 <= i < s.len()
            &&& s[i].key@ == key
            &&& entries_map(s)[key] == (s[i].value@, s[i].expires_at)
        },
    decreases s.len(),
{
    if s.len() > 0 {
        lemma_last_for(s.drop_last(), key);
    }
}

impl KvStore {
    /// An empty store.
    pub fn new() -> (r: Self)
        ensures
            r@ == Map::<Seq<char>, KvSlot>::empty(),
    {
        KvStore { entries: Vec::new() }
    }

    /// Deletes what `key` holds.
    pub fn kv_del(&mut self, key: &str)
        ensures
            final(self)@ == old(self)@.remove(key@),
    {
        let ghost s = self.entries@;
        let mut kept: Vec<KvEntry> = Vec::new();
        let mut i: usize = 0;
        while i < self.entries.len()
            invariant
                i <= self.entries.len(),
                self.entries@ == s,
                entries_map(kept@) == entries_map(without_key(s.take(i as int), key@)),
            decreases self.entries.len() - i,
        {
            proof {
                assert(s.take(i + 1 as int).drop_last() =~= s.take(i as int));
            }
            if !str_equals(self.entries[i].key.as_str(), key) {
                let e = KvEntry {
                    key: self.entries[i].key.clone(),
                    value: self.entries[i].value.clone(),
                    expires_at: self.entries[i].expires_at,
                };
                let ghost prev = kept@;
                kept.push(e);
                proof {
                    assert(s.take(i + 1 as int).last() == s[i as int]);
                    assert(kept@.drop_last() =~= prev);
                    let w = without_key(s.take(i as int), key@);
                    assert(w.push(s[i as int]).drop_last() =~= w);
                }
            }
            i = i + 1;
        }
        proof {
            assert(s.take(s.len() as int) =~= s);
        }
        self.entries = kept;
        proof {
            lemma_without_key(s, key@);
        }
    }

    /// Writes `value` under `key` at `now`, to expire `ttl` seconds later
    /// (never without a time to live); what the key held before is replaced.
    pub fn kv_set(&mut self, key: &str, value: String, ttl: Option<i64>, now: i64)
        requires
            ttl.is_some() ==> i64::MIN <= now + ttl.unwrap() <= i64::MAX,
        ensures
            final(self)@ == kv_written(old(self)@, key@, value@, now, ttl),
    {
        let expires_at = cache_expiry(now, ttl);
        self.kv_del(key);
        let ghost before = self.entries@;
        self.entries.push(KvEntry { key: String::from_str(key), value, expires_at });
        proof {
            assert(self.entries@.drop_last() =~= before);
            assert(self@ =~= kv_written(old(self)@, key@, value@, now, ttl));
        }
    }

    /// Reads `key` at `now`: its value while it has not expired; an expired
    /// value is deleted and reads as nothing.
    pub fn kv_get(&mut self, key: &str, now: i64) -> (r: Option<String>)
        ensures
            match r {
                Some(v) => kv_read(old(self)@, key@, now as int) == Some(v@),
                None => kv_read(old(self)@, key@, now as int) is None,
            },
            final(self)@ == if old(self)@.dom().contains(key@) && stale(
                old(self)@[key@].1,
                now as int,
            ) {
                old(self)@.remove(key@)
            } else {
                old(self)@
            },
    {
        let ghost s = self.entries@;
        proof {
            lemma_last_for(s, key@);
            assert(s.take(s.len() as int) =~= s);
        }
        let mut i: usize = self.entries.len();
        let mut found: Option<usize> = None;
        while i > 0 && found.is_none()
            invariant
                i <= self.entries.len(),
                self.entries@ == s,
                found is None ==> last_for(s, key@) == last_for(s.take(i as int), key@),
                found is Some ==> last_for(s, key@) == Some(found->Some_0 as int),
            decreases i,
        {
            proof {
                assert(s.take(i as int).drop_last() =~= s.take(i - 1 as int));
            }
            if str_equals(self.entries[i - 1].key.as_str(), key) {
                found = Some(i - 1);
            }
            i = i - 1;
        }
        proof {
            if found is None {
                assert(s.take(0) =~= Seq::<KvEntry>::empty());
            }
        }
        match found {
            None => None,
            Some(j) => {
                if cache_expired(self.entries[j].expires_at, now) {
                    self.kv_del(key);
                    None
                } else {
                    Some(self.entries[j].value.clone())
                }
            },
        }
    }
}

/// Reading a key gives what was last written under it until that value
/// expires (never, without a time to live), and nothing from then on; after
/// a delete it reads as nothing; of two writes under one key the later one
/// is read.
pub proof fn lemma_kv_read_after_write(
    m: Map<Seq<char>, KvSlot>,
    key: Seq<char>,
    value: Seq<char>,
    value2: Seq<char>,
    written: i64,
    ttl: Option<i64>,
    ttl2: Option<i64>,
    now: int,
)
    requires
        ttl.is_some() ==> i64::MIN <= written + ttl.unwrap() <= i64::MAX,
        ttl2.is_some() ==> i64::MIN <= written + ttl2.unwrap() <= i64::MAX,
    ensures
        kv_read(kv_written(m, key, value, written, ttl), key, now) == if ttl is None || now
            < written + ttl.unwrap() {
            Some(value)
        } else {
            None::<Seq<char>>
        },
        kv_read(kv_written(m, key, value, written, ttl).remove(key), key, now) is None,
        kv_written(kv_written(m, key, value, written, ttl), key, value2, written, ttl2)
            == kv_written(m, key, value2, written, ttl2),
{
    assert(kv_written(kv_written(m, key, value, written, ttl), key, value2, written, ttl2)
        =~= kv_written(m, key, value2, written, ttl2));
}

} // verus!
