//! API-key authentication against a fixed registry.

use vstd::prelude::*;
use vstd::string::*;
use crate::errors::AppError;
use crate::text::{texts, trim, trimmed};

verus! {

#[derive(Debug, Clone, Copy, PartialEq, Eq, Structural)]
pub struct RatePolicy {
    pub requests_per_minute: u32,
    pub tokens_per_minute: u64,
    pub tokens_per_day: u64,
}

#[derive(Debug)]
pub struct AuthContext {
    pub api_key: String,
    pub user_id: String,
    pub policy: RatePolicy,
}

#[derive(Debug)]
pub struct ApiKeyRegistry {
    valid_keys: Vec<String>,
    policy: RatePolicy,
}

/// The first eight characters of a key (all of it when shorter).
pub open spec fn redacted(key: Seq<char>) -> Seq<char> {
    if key.len() <= 8 {
        key
    } else {
        key.subrange(0, 8)
    }
}

/// The user id derived from an API key.
pub open spec fn user_id_for(key: Seq<char>) -> Seq<char> {
    "key_"@ + redacted(key)
}

pub fn redact_key(key: &str) -> (r: String)
    ensures
        r@ == redacted(key@),
{
    let n: usize = key.unicode_len();
    if n <= 8 {
        key.to_owned()
    } else {
        key.substring_char(0, 8).to_owned()
    }
}

impl ApiKeyRegistry {
    /// The registered keys.
    pub closed spec fn spec_keys(&self) -> Seq<String> {
        self.valid_keys@
    }

    /// Whether `key` is one of the registered keys.
    pub open spec fn accepts(&self, key: Seq<char>) -> bool {
        exists|i: int| 0 <= i < self.spec_keys().len() && (#[trigger] self.spec_keys()[i])@ == key
    }

    /// The policy every key of this registry is held to.
    pub closed spec fn spec_policy(&self) -> RatePolicy {
        self.policy
    }

    /// A registry of exactly the given keys.
    pub fn new(valid_keys: Vec<String>, policy: RatePolicy) -> (registry: Self)
        ensures
            registry.spec_policy() == policy,
            registry.spec_keys() == valid_keys@,
    {
        ApiKeyRegistry { valid_keys, policy }
    }

    pub fn policy(&self) -> (policy: RatePolicy)
        ensures
            policy == self.spec_policy(),
    {
        self.policy
    }

    fn is_registered(&self, key: &str) -> (r: bool)
        ensures
            r == self.accepts(key@),
    {
        let wanted = key.to_owned();
        let mut i: usize = 0;
        while i < self.valid_keys.len()
            invariant
                wanted@ == key@,
                i <= self.valid_keys@.len(),
                forall|k: int| 0 <= k < i ==> (#[trigger] self.valid_keys@[k])@ != key@,
            decreases self.valid_keys@.len() - i,
        {
            if self.valid_keys[i] == wanted {
                assert(self.spec_keys()[i as int]@ == key@);
                return true;
            }
            i += 1;
        }
        false
    }

    /// Checks the value of the `x-api-key` header (`None` when the header is
    /// absent or not text). The key is the trimmed value; it must be non-empty
    /// and registered.
    pub fn authenticate(&self, header: Option<&str>) -> (result: Result<AuthContext, AppError>)
        ensures
            match result {
                Ok(context) => {
                    &&& header is Some
                    &&& context.api_key@ == trimmed(header->Some_0@)
                    &&& context.api_key@.len() > 0
                    &&& self.accepts(context.api_key@)
                    &&& context.user_id@ == user_id_for(context.api_key@)
                    &&& context.policy == self.spec_policy()
                },
                Err(AppError::Unauthorized(message)) => {
                    if header is None || trimmed(header->Some_0@).len() == 0 {
                        message@ == "missing x-api-key header"@
                    } else {
                        !self.accepts(trimmed(header->Some_0@)) && message@ == "invalid api key"@
                    }
                },
                Err(_) => false,
            },
    {
        let api_key = match header {
            Some(value) => trim(value),
            None => {
                return Err(AppError::Unauthorized("missing x-api-key header".to_owned()));
            },
        };
        if api_key.unicode_len() == 0 {
            return Err(AppError::Unauthorized("missing x-api-key header".to_owned()));
        }
        if !self.is_registered(api_key) {
            return Err(AppError::Unauthorized("invalid api key".to_owned()));
        }
        let redacted_key = redact_key(api_key);
        let user_id = String::from_str("key_").concat(redacted_key.as_str());
        Ok(AuthContext { api_key: api_key.to_owned(), user_id, policy: self.policy })
    }
}

/// A piece of a key list counts as a key when something is left of it after
/// trimming.
pub open spec fn kept_key(piece: Seq<char>) -> Seq<Seq<char>> {
    if trimmed(piece).len() > 0 {
        seq![trimmed(piece)]
    } else {
        Seq::<Seq<char>>::empty()
    }
}

/// The keys of a comma-separated list from index `i` on, where `current`
/// holds the characters of the piece that is being read.
pub open spec fn keys_scan(s: Seq<char>, i: int, current: Seq<char>) -> Seq<Seq<char>>
    decreases s.len() - i,
{
    if i < 0 || i >= s.len() {
        kept_key(current)
    } else if s[i] == ',' {
        kept_key(current) + keys_scan(s, i + 1, Seq::<char>::empty())
    } else {
        keys_scan(s, i + 1, current.push(s[i]))
    }
}

/// The keys that a comma-separated list names: its pieces, trimmed, without
/// the empty ones.
pub open spec fn listed_keys(s: Seq<char>) -> Seq<Seq<char>> {
    keys_scan(s, 0, Seq::<char>::empty())
}

/// Reads a comma-separated list of keys.
pub fn parse_key_list(list: &str) -> (keys: Vec<String>)
    ensures
        texts(keys@) == listed_keys(list@),
{
    let n: usize = list.unicode_len();
    let mut keys: Vec<String> = Vec::new();
    let mut start: usize = 0;
    let mut i: usize = 0;
    assert(list@.subrange(0, 0) =~= Seq::<char>::empty());
    assert(texts(keys@) + listed_keys(list@) =~= listed_keys(list@));
    while i < n
        invariant
            n == list@.len(),
            start <= i <= n,
            texts(keys@) + keys_scan(list@, i as int, list@.subrange(start as int, i as int))
                == listed_keys(list@),
        decreases n - i,
    {
        let ghost current = list@.subrange(start as int, i as int);
        if list.get_char(i) == ',' {
            let ghost before = texts(keys@);
            let piece = trim(list.substring_char(start, i));
            if piece.unicode_len() > 0 {
                keys.push(piece.to_owned());
                assert(texts(keys@) =~= before + kept_key(current));
            } else {
                assert(texts(keys@) =~= before + kept_key(current));
            }
            assert(texts(keys@) + keys_scan(list@, i + 1, Seq::<char>::empty()) =~= before + (
            kept_key(current) + keys_scan(list@, i + 1, Seq::<char>::empty())));
            start = i + 1;
            assert(list@.subrange(start as int, i + 1) =~= Seq::<char>::empty());
        } else {
            assert(list@.subrange(start as int, i + 1) =~= current.push(list@[i as int]));
        }
        i += 1;
    }
    let ghost before = texts(keys@);
    let piece = trim(list.substring_char(start, n));
    if piece.unicode_len() > 0 {
        keys.push(piece.to_owned());
    }
    assert(texts(keys@) =~= before + kept_key(list@.subrange(start as int, n as int)));
    keys
}

impl ApiKeyRegistry {
    /// The registry for the given settings: the keys that the list names
    /// (`dev-key` alone where there is no list or it names none), and the
    /// limits, by default 120 requests and 120000 tokens a minute and 2000000
    /// tokens a day.
    pub fn from_settings(
        key_list: Option<&str>,
        requests_per_minute: Option<u32>,
        tokens_per_minute: Option<u64>,
        tokens_per_day: Option<u64>,
    ) -> (registry: Self)
        ensures
            texts(registry.spec_keys()) == ({
                let listed = match key_list {
                    Some(list) => listed_keys(list@),
                    None => Seq::<Seq<char>>::empty(),
                };
                if listed.len() == 0 {
                    seq!["dev-key"@]
                } else {
                    listed
                }
            }),
            registry.spec_policy() == (RatePolicy {
                requests_per_minute: match requests_per_minute {
                    Some(limit) => limit,
                    None => 120,
                },
                tokens_per_minute: match tokens_per_minute {
                    Some(limit) => limit,
                    None => 120_000,
                },
                tokens_per_day: match tokens_per_day {
                    Some(limit) => limit,
                    None => 2_000_000,
                },
            }),
    {
        let mut valid_keys = match key_list {
            Some(list) => parse_key_list(list),
            None => Vec::new(),
        };
        if valid_keys.len() == 0 {
            valid_keys.push("dev-key".to_owned());
            assert(texts(valid_keys@) =~= seq!["dev-key"@]);
        }
        let policy = RatePolicy {
            requests_per_minute: match requests_per_minute {
                Some(limit) => limit,
                None => 120,
            },
            tokens_per_minute: match tokens_per_minute {
                Some(limit) => limit,
                None => 120_000,
            },
            tokens_per_day: match tokens_per_day {
                Some(limit) => limit,
                None => 2_000_000,
            },
        };
        ApiKeyRegistry { valid_keys, policy }
    }
}

} // verus!
