//! The response cache: entries keyed by fingerprint that expire a fixed time
//! after they were stored. Times are milliseconds on the caller's monotonic
//! clock.

use vstd::prelude::*;
use vstd::string::*;
use crate::models::BackendChatResponse;
use crate::table::KeyedTable;

verus! {

#[derive(Debug, Clone, Copy, PartialEq, Eq, Structural)]
pub struct CacheConfig {
    pub ttl_ms: u64,
}

/// A time to live given in seconds, in milliseconds; 90 seconds where none
/// is given, and capped at the largest `u64`.
pub open spec fn ttl_ms_of(ttl_secs: Option<u64>) -> u64 {
    let secs = match ttl_secs {
        Some(secs) => secs,
        None => 90,
    };
    if secs * 1000 > u64::MAX {
        u64::MAX
    } else {
        (secs * 1000) as u64
    }
}

impl CacheConfig {
    /// The configuration for a time to live in seconds (90 by default).
    pub fn from_secs(ttl_secs: Option<u64>) -> (config: Self)
        ensures
            config.ttl_ms == ttl_ms_of(ttl_secs),
    {
        let secs: u64 = match ttl_secs {
            Some(secs) => secs,
            None => 90,
        };
        if secs > u64::MAX / 1000 {
            CacheConfig { ttl_ms: u64::MAX }
        } else {
            CacheConfig { ttl_ms: secs * 1000 }
        }
    }

    /// The time to live in whole seconds.
    pub fn ttl_secs(&self) -> (secs: u64)
        ensures
            secs == self.ttl_ms / 1000,
    {
        self.ttl_ms / 1000
    }
}

#[derive(Debug)]
pub struct CacheEntry {
    pub value: BackendChatResponse,
    pub expires_at: u64,
}

pub struct ResponseCache {
    store: KeyedTable<CacheEntry>,
    config: CacheConfig,
}

/// The name under which a response is kept in a shared store.
pub open spec fn shared_key(prefix: Seq<char>, key: Seq<char>) -> Seq<char> {
    prefix + ":cache:chat:"@ + key
}

pub fn shared_cache_key(prefix: &str, key: &str) -> (name: String)
    ensures
        name@ == shared_key(prefix@, key@),
{
    let mut name = prefix.to_owned();
    name.append(":cache:chat:");
    name.append(key);
    name
}

impl ResponseCache {
    pub closed spec fn wf(&self) -> bool {
        self.store.wf()
    }

    /// The stored entries, expired ones included until a read removes them.
    pub closed spec fn view(&self) -> Map<Seq<char>, CacheEntry> {
        self.store@
    }

    pub closed spec fn config(&self) -> CacheConfig {
        self.config
    }

    /// What a reader of `key` gets at time `now`: the stored response, if
    /// there is one that has not expired.
    pub open spec fn lookup(&self, key: Seq<char>, now: u64) -> Option<BackendChatResponse> {
        if self@.contains_key(key) && now < self@[key].expires_at {
            Some(self@[key].value)
        } else {
            None
        }
    }

    /// An empty in-process cache.
    pub fn memory(config: CacheConfig) -> (cache: Self)
        ensures
            cache.wf(),
            cache.config() == config,
            cache@ == Map::<Seq<char>, CacheEntry>::empty(),
    {
        ResponseCache { store: KeyedTable::new(), config }
    }

    /// Reads the response stored under `key`. An entry that has expired is
    /// removed and reads as a miss.
    pub fn get(&mut self, key: &str, now: u64) -> (result: Option<BackendChatResponse>)
        requires
            old(self).wf(),
        ensures
            final(self).wf(),
            final(self).config() == old(self).config(),
            result == old(self).lookup(key@, now),
            final(self)@ == (if old(self)@.contains_key(key@) && old(self)@[key@].expires_at <= now {
                old(self)@.remove(key@)
            } else {
                old(self)@
            }),
    {
        let expired = match self.store.get(key) {
            Some(entry) => {
                if entry.expires_at > now {
                    return Some(entry.value.clone());
                }
                true
            },
            None => false,
        };
        if expired {
            let _ = self.store.remove(key);
        }
        None
    }

    /// Stores `value` under `key`; it expires one time to live after `now`.
    pub fn set(&mut self, key: &str, value: &BackendChatResponse, now: u64)
        requires
            old(self).wf(),
            now + old(self).config().ttl_ms <= u64::MAX,
        ensures
            final(self).wf(),
            final(self).config() == old(self).config(),
            final(self)@ == old(self)@.insert(
                key@,
                CacheEntry { value: *value, expires_at: (now + old(self).config().ttl_ms) as u64 },
            ),
    {
        let entry = CacheEntry { value: value.clone(), expires_at: now + self.config.ttl_ms };
        self.store.insert(key.to_owned(), entry);
    }
}

/// A value stored at `now` is read back until its time to live has passed,
/// and not from then on.
pub proof fn lemma_set_then_get(
    cache: ResponseCache,
    after_set: ResponseCache,
    key: Seq<char>,
    value: BackendChatResponse,
    now: u64,
    later: u64,
)
    requires
        now + cache.config().ttl_ms <= u64::MAX,
        after_set@ == cache@.insert(
            key,
            CacheEntry { value, expires_at: (now + cache.config().ttl_ms) as u64 },
        ),
    ensures
        later < now + cache.config().ttl_ms ==> after_set.lookup(key, later) == Some(value),
        later >= now + cache.config().ttl_ms ==> after_set.lookup(key, later) is None,
{
}

} // verus!
