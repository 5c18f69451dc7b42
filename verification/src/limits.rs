//! Fixed-window quotas per API key: requests per minute, tokens per minute
//! and tokens per day, with reconciliation once the real usage is known.

use vstd::prelude::*;
use vstd::string::*;
use crate::auth::RatePolicy;
use crate::models::{NormalizedChatRequest, NormalizedMessage};
use crate::table::KeyedTable;
use crate::text::{count_words, decimal, u64_to_decimal, word_count};

verus! {

/// Limits, what is left of them, and when the windows reset.
#[derive(Debug, Clone, Copy, PartialEq, Eq, Structural)]
pub struct RateLimitSnapshot {
    pub limit_requests_per_minute: u32,
    pub remaining_requests_per_minute: u32,
    pub limit_tokens_per_minute: u64,
    pub remaining_tokens_per_minute: u64,
    pub limit_tokens_per_day: u64,
    pub remaining_tokens_per_day: u64,
    pub reset_requests_per_minute: u64,
    pub reset_tokens_per_day: u64,
}

/// The three quotas, in the order in which they are checked.
#[derive(Debug, Clone, Copy, PartialEq, Eq, Structural)]
pub enum QuotaKind {
    RequestsPerMinute,
    TokensPerMinute,
    TokensPerDay,
}

#[derive(Debug, Clone, Copy, PartialEq, Eq, Structural)]
pub enum RateLimitError {
    RequestsPerMinute(RateLimitSnapshot),
    TokensPerMinute(RateLimitSnapshot),
    TokensPerDay(RateLimitSnapshot),
}

/// Counters of one key, each tied to the window it was counted in.
#[derive(Debug, Clone, Copy, PartialEq, Eq, Structural)]
pub struct KeyUsage {
    pub minute_started_at: u64,
    pub day_started_at: u64,
    pub requests_in_minute: u32,
    pub tokens_in_minute: u64,
    pub tokens_in_day: u64,
}

/// Start of the minute window that holds `now`.
pub open spec fn minute_start(now: u64) -> u64 {
    (now / 60 * 60) as u64
}

/// Start of the day window that holds `now`.
pub open spec fn day_start(now: u64) -> u64 {
    (now / 86_400 * 86_400) as u64
}

/// `limit - used`, or zero where more was used than the limit allows.
pub open spec fn remaining(limit: int, used: int) -> int {
    if used >= limit {
        0
    } else {
        limit - used
    }
}

/// The snapshot for the given counts at time `now`.
pub open spec fn snapshot_of_counts(
    policy: RatePolicy,
    request_count: u64,
    tokens_minute_count: u64,
    tokens_day_count: u64,
    now: u64,
) -> RateLimitSnapshot {
    RateLimitSnapshot {
        limit_requests_per_minute: policy.requests_per_minute,
        remaining_requests_per_minute: remaining(
            policy.requests_per_minute as int,
            request_count as int,
        ) as u32,
        limit_tokens_per_minute: policy.tokens_per_minute,
        remaining_tokens_per_minute: remaining(
            policy.tokens_per_minute as int,
            tokens_minute_count as int,
        ) as u64,
        limit_tokens_per_day: policy.tokens_per_day,
        remaining_tokens_per_day: remaining(
            policy.tokens_per_day as int,
            tokens_day_count as int,
        ) as u64,
        reset_requests_per_minute: minute_start(now).saturating_add(60),
        reset_tokens_per_day: day_start(now).saturating_add(86_400),
    }
}

/// The snapshot of a key's counters at time `now`.
pub open spec fn snapshot_of(policy: RatePolicy, usage: KeyUsage, now: u64) -> RateLimitSnapshot {
    snapshot_of_counts(
        policy,
        usage.requests_in_minute as u64,
        usage.tokens_in_minute,
        usage.tokens_in_day,
        now,
    )
}

/// Counters after the windows were brought up to `now`: a counter whose
/// window has passed starts again at zero.
pub open spec fn refreshed(usage: KeyUsage, now: u64) -> KeyUsage {
    let same_minute = usage.minute_started_at == minute_start(now);
    let same_day = usage.day_started_at == day_start(now);
    KeyUsage {
        minute_started_at: minute_start(now),
        day_started_at: day_start(now),
        requests_in_minute: if same_minute { usage.requests_in_minute } else { 0 },
        tokens_in_minute: if same_minute { usage.tokens_in_minute } else { 0 },
        tokens_in_day: if same_day { usage.tokens_in_day } else { 0 },
    }
}

/// The first quota, in checking order, that one more request of `estimated`
/// tokens would exceed.
pub open spec fn first_exceeded(usage: KeyUsage, policy: RatePolicy, estimated: u64) -> Option<
    QuotaKind,
> {
    if usage.requests_in_minute + 1 > policy.requests_per_minute {
        Some(QuotaKind::RequestsPerMinute)
    } else if usage.tokens_in_minute + estimated > policy.tokens_per_minute {
        Some(QuotaKind::TokensPerMinute)
    } else if usage.tokens_in_day + estimated > policy.tokens_per_day {
        Some(QuotaKind::TokensPerDay)
    } else {
        None
    }
}

/// Counters after one admitted request of `estimated` tokens.
pub open spec fn consumed(usage: KeyUsage, estimated: u64) -> KeyUsage {
    KeyUsage {
        requests_in_minute: usage.requests_in_minute.saturating_add(1),
        tokens_in_minute: usage.tokens_in_minute.saturating_add(estimated),
        tokens_in_day: usage.tokens_in_day.saturating_add(estimated),
        ..usage
    }
}

/// The rejection for `kind`, carrying `snapshot`.
pub open spec fn rejection(kind: QuotaKind, snapshot: RateLimitSnapshot) -> RateLimitError {
    match kind {
        QuotaKind::RequestsPerMinute => RateLimitError::RequestsPerMinute(snapshot),
        QuotaKind::TokensPerMinute => RateLimitError::TokensPerMinute(snapshot),
        QuotaKind::TokensPerDay => RateLimitError::TokensPerDay(snapshot),
    }
}

/// Counters of a key after a check at time `now`.
pub open spec fn usage_after_check(
    usage: KeyUsage,
    policy: RatePolicy,
    estimated: u64,
    now: u64,
) -> KeyUsage {
    let current = refreshed(usage, now);
    if first_exceeded(current, policy, estimated) is Some {
        current
    } else {
        consumed(current, estimated)
    }
}

/// Verdict of a check at time `now`.
pub open spec fn verdict_of_check(
    usage: KeyUsage,
    policy: RatePolicy,
    estimated: u64,
    now: u64,
) -> Result<RateLimitSnapshot, RateLimitError> {
    let after = usage_after_check(usage, policy, estimated, now);
    match first_exceeded(refreshed(usage, now), policy, estimated) {
        Some(kind) => Err(rejection(kind, snapshot_of(policy, after, now))),
        None => Ok(snapshot_of(policy, after, now)),
    }
}

/// Token counters corrected by `actual - estimated`, never below zero and
/// never above the largest `u64`.
pub open spec fn reconciled(usage: KeyUsage, estimated: u64, actual: u64) -> KeyUsage {
    if actual > estimated {
        let diff = (actual - estimated) as u64;
        KeyUsage {
            tokens_in_minute: usage.tokens_in_minute.saturating_add(diff),
            tokens_in_day: usage.tokens_in_day.saturating_add(diff),
            ..usage
        }
    } else {
        let diff = (estimated - actual) as u64;
        KeyUsage {
            tokens_in_minute: usage.tokens_in_minute.saturating_sub(diff),
            tokens_in_day: usage.tokens_in_day.saturating_sub(diff),
            ..usage
        }
    }
}

pub fn current_minute_start(now: u64) -> (start: u64)
    ensures
        start == minute_start(now),
        start <= now < start + 60,
{
    (now / 60) * 60
}

pub fn current_day_start(now: u64) -> (start: u64)
    ensures
        start == day_start(now),
        start <= now < start + 86_400,
{
    (now / 86_400) * 86_400
}

impl KeyUsage {
    /// Zeroed counters in the windows that hold `now`.
    pub open spec fn fresh(now: u64) -> KeyUsage {
        KeyUsage {
            minute_started_at: minute_start(now),
            day_started_at: day_start(now),
            requests_in_minute: 0,
            tokens_in_minute: 0,
            tokens_in_day: 0,
        }
    }

    pub fn new(now: u64) -> (usage: Self)
        ensures
            usage == KeyUsage::fresh(now),
    {
        KeyUsage {
            minute_started_at: current_minute_start(now),
            day_started_at: current_day_start(now),
            requests_in_minute: 0,
            tokens_in_minute: 0,
            tokens_in_day: 0,
        }
    }
}

/// Brings the windows of `usage` up to `now`.
pub fn refresh_windows(now: u64, usage: &mut KeyUsage)
    ensures
        *final(usage) == refreshed(*old(usage), now),
{
    let minute = current_minute_start(now);
    if usage.minute_started_at != minute {
        usage.minute_started_at = minute;
        usage.requests_in_minute = 0;
        usage.tokens_in_minute = 0;
    }
    let day = current_day_start(now);
    if usage.day_started_at != day {
        usage.day_started_at = day;
        usage.tokens_in_day = 0;
    }
}

fn remaining_u64(limit: u64, used: u64) -> (left: u64)
    ensures
        left == remaining(limit as int, used as int),
{
    if used >= limit {
        0
    } else {
        limit - used
    }
}

pub fn snapshot_from_counts(
    policy: &RatePolicy,
    request_count: u64,
    tokens_minute_count: u64,
    tokens_day_count: u64,
    now: u64,
) -> (snapshot: RateLimitSnapshot)
    ensures
        snapshot == snapshot_of_counts(
            *policy,
            request_count,
            tokens_minute_count,
            tokens_day_count,
            now,
        ),
{
    let remaining_requests: u32 = if request_count >= policy.requests_per_minute as u64 {
        0
    } else {
        policy.requests_per_minute - (request_count as u32)
    };
    RateLimitSnapshot {
        limit_requests_per_minute: policy.requests_per_minute,
        remaining_requests_per_minute: remaining_requests,
        limit_tokens_per_minute: policy.tokens_per_minute,
        remaining_tokens_per_minute: remaining_u64(policy.tokens_per_minute, tokens_minute_count),
        limit_tokens_per_day: policy.tokens_per_day,
        remaining_tokens_per_day: remaining_u64(policy.tokens_per_day, tokens_day_count),
        reset_requests_per_minute: current_minute_start(now).saturating_add(60),
        reset_tokens_per_day: current_day_start(now).saturating_add(86_400),
    }
}

pub fn snapshot(policy: &RatePolicy, usage: &KeyUsage, now: u64) -> (snapshot: RateLimitSnapshot)
    ensures
        snapshot == snapshot_of(*policy, *usage, now),
{
    snapshot_from_counts(
        policy,
        usage.requests_in_minute as u64,
        usage.tokens_in_minute,
        usage.tokens_in_day,
        now,
    )
}

/// The snapshot of a key that has used nothing.
pub fn empty_snapshot(policy: &RatePolicy, now: u64) -> (snapshot: RateLimitSnapshot)
    ensures
        snapshot == snapshot_of_counts(*policy, 0, 0, 0, now),
{
    snapshot_from_counts(policy, 0, 0, 0, now)
}

/// Checks one request of `estimated_tokens` against the counters of a key at
/// time `now`, and counts it if no quota would be exceeded. A rejection
/// leaves the refreshed counters as they are.
pub fn check_usage(
    usage: &mut KeyUsage,
    policy: &RatePolicy,
    estimated_tokens: u64,
    now: u64,
) -> (result: Result<RateLimitSnapshot, RateLimitError>)
    ensures
        *final(usage) == usage_after_check(*old(usage), *policy, estimated_tokens, now),
        result == verdict_of_check(*old(usage), *policy, estimated_tokens, now),
{
    refresh_windows(now, usage);
    if usage.requests_in_minute >= policy.requests_per_minute {
        return Err(RateLimitError::RequestsPerMinute(snapshot(policy, usage, now)));
    }
    if estimated_tokens > policy.tokens_per_minute || usage.tokens_in_minute
        > policy.tokens_per_minute - estimated_tokens {
        return Err(RateLimitError::TokensPerMinute(snapshot(policy, usage, now)));
    }
    if estimated_tokens > policy.tokens_per_day || usage.tokens_in_day > policy.tokens_per_day
        - estimated_tokens {
        return Err(RateLimitError::TokensPerDay(snapshot(policy, usage, now)));
    }
    usage.requests_in_minute = usage.requests_in_minute.saturating_add(1);
    usage.tokens_in_minute = usage.tokens_in_minute.saturating_add(estimated_tokens);
    usage.tokens_in_day = usage.tokens_in_day.saturating_add(estimated_tokens);
    Ok(snapshot(policy, usage, now))
}

/// Corrects the token counters of a key by `actual - estimated` at time `now`.
pub fn reconcile_usage(usage: &mut KeyUsage, estimated: u64, actual: u64, now: u64)
    ensures
        *final(usage) == reconciled(refreshed(*old(usage), now), estimated, actual),
{
    refresh_windows(now, usage);
    if actual > estimated {
        let diff: u64 = actual - estimated;
        usage.tokens_in_minute = usage.tokens_in_minute.saturating_add(diff);
        usage.tokens_in_day = usage.tokens_in_day.saturating_add(diff);
    } else {
        let diff: u64 = estimated - actual;
        usage.tokens_in_minute = usage.tokens_in_minute.saturating_sub(diff);
        usage.tokens_in_day = usage.tokens_in_day.saturating_sub(diff);
    }
}

/// An admitted request bumps the three counters by one request and the
/// estimate twice over, exactly; a rejected one leaves the refreshed counters
/// untouched and names the first quota, in checking order, that it would
/// have exceeded.
pub proof fn lemma_check_bumps_or_keeps(usage: KeyUsage, policy: RatePolicy, estimated: u64, now: u64)
    ensures
        ({
            let current = refreshed(usage, now);
            let after = usage_after_check(usage, policy, estimated, now);
            match verdict_of_check(usage, policy, estimated, now) {
                Ok(_) => {
                    &&& after.requests_in_minute == current.requests_in_minute + 1
                    &&& after.tokens_in_minute == current.tokens_in_minute + estimated
                    &&& after.tokens_in_day == current.tokens_in_day + estimated
                    &&& after.requests_in_minute <= policy.requests_per_minute
                    &&& after.tokens_in_minute <= policy.tokens_per_minute
                    &&& after.tokens_in_day <= policy.tokens_per_day
                },
                Err(RateLimitError::RequestsPerMinute(_)) => {
                    &&& after == current
                    &&& current.requests_in_minute + 1 > policy.requests_per_minute
                },
                Err(RateLimitError::TokensPerMinute(_)) => {
                    &&& after == current
                    &&& current.requests_in_minute + 1 <= policy.requests_per_minute
                    &&& current.tokens_in_minute + estimated > policy.tokens_per_minute
                },
                Err(RateLimitError::TokensPerDay(_)) => {
                    &&& after == current
                    &&& current.requests_in_minute + 1 <= policy.requests_per_minute
                    &&& current.tokens_in_minute + estimated <= policy.tokens_per_minute
                    &&& current.tokens_in_day + estimated > policy.tokens_per_day
                },
            }
        }),
{
}

/// A counter is zero whenever its window is not the one that holds `now`.
pub proof fn lemma_refresh_resets_stale_windows(usage: KeyUsage, now: u64)
    ensures
        usage.minute_started_at != minute_start(now) ==> refreshed(usage, now).requests_in_minute
            == 0 && refreshed(usage, now).tokens_in_minute == 0,
        usage.day_started_at != day_start(now) ==> refreshed(usage, now).tokens_in_day == 0,
        refreshed(refreshed(usage, now), now) == refreshed(usage, now),
{
}

/// Name of the `i`-th rate-limit header.
pub open spec fn header_name(i: int) -> Seq<char> {
    if i == 0 {
        "x-ratelimit-limit-requests-minute"@
    } else if i == 1 {
        "x-ratelimit-remaining-requests-minute"@
    } else if i == 2 {
        "x-ratelimit-limit-tokens-minute"@
    } else if i == 3 {
        "x-ratelimit-remaining-tokens-minute"@
    } else if i == 4 {
        "x-ratelimit-limit-tokens-day"@
    } else if i == 5 {
        "x-ratelimit-remaining-tokens-day"@
    } else if i == 6 {
        "x-ratelimit-reset-requests-minute"@
    } else {
        "x-ratelimit-reset-tokens-day"@
    }
}

/// `pairs` are the eight rate-limit headers of `snapshot`, values in decimal.
pub open spec fn decimal_headers(snapshot: RateLimitSnapshot, pairs: Seq<(String, String)>) -> bool {
    &&& pairs.len() == 8
    &&& forall|i: int|
        0 <= i < 8 ==> (#[trigger] pairs[i]).0@ == header_name(i) && pairs[i].1@ == decimal(
            snapshot.header_value(i),
        )
}

impl RateLimitSnapshot {
    /// The number that the `i`-th rate-limit header reports.
    pub open spec fn header_value(&self, i: int) -> nat {
        if i == 0 {
            self.limit_requests_per_minute as nat
        } else if i == 1 {
            self.remaining_requests_per_minute as nat
        } else if i == 2 {
            self.limit_tokens_per_minute as nat
        } else if i == 3 {
            self.remaining_tokens_per_minute as nat
        } else if i == 4 {
            self.limit_tokens_per_day as nat
        } else if i == 5 {
            self.remaining_tokens_per_day as nat
        } else if i == 6 {
            self.reset_requests_per_minute as nat
        } else {
            self.reset_tokens_per_day as nat
        }
    }

    /// The eight rate-limit headers, each value in decimal.
    pub fn to_header_pairs(&self) -> (pairs: Vec<(String, String)>)
        ensures
            decimal_headers(*self, pairs@),
    {
        let mut pairs: Vec<(String, String)> = Vec::new();
        pairs.push(
            (
                "x-ratelimit-limit-requests-minute".to_owned(),
                u64_to_decimal(self.limit_requests_per_minute as u64),
            ),
        );
        pairs.push(
            (
                "x-ratelimit-remaining-requests-minute".to_owned(),
                u64_to_decimal(self.remaining_requests_per_minute as u64),
            ),
        );
        pairs.push(
            (
                "x-ratelimit-limit-tokens-minute".to_owned(),
                u64_to_decimal(self.limit_tokens_per_minute),
            ),
        );
        pairs.push(
            (
                "x-ratelimit-remaining-tokens-minute".to_owned(),
                u64_to_decimal(self.remaining_tokens_per_minute),
            ),
        );
        pairs.push(
            ("x-ratelimit-limit-tokens-day".to_owned(), u64_to_decimal(self.limit_tokens_per_day)),
        );
        pairs.push(
            (
                "x-ratelimit-remaining-tokens-day".to_owned(),
                u64_to_decimal(self.remaining_tokens_per_day),
            ),
        );
        pairs.push(
            (
                "x-ratelimit-reset-requests-minute".to_owned(),
                u64_to_decimal(self.reset_requests_per_minute),
            ),
        );
        pairs.push(
            ("x-ratelimit-reset-tokens-day".to_owned(), u64_to_decimal(self.reset_tokens_per_day)),
        );
        pairs
    }
}

impl RateLimitError {
    /// The quota that was exceeded.
    pub open spec fn kind(&self) -> QuotaKind {
        match self {
            RateLimitError::RequestsPerMinute(_) => QuotaKind::RequestsPerMinute,
            RateLimitError::TokensPerMinute(_) => QuotaKind::TokensPerMinute,
            RateLimitError::TokensPerDay(_) => QuotaKind::TokensPerDay,
        }
    }

    /// The snapshot taken at the rejection.
    pub open spec fn spec_snapshot(&self) -> RateLimitSnapshot {
        match self {
            RateLimitError::RequestsPerMinute(snapshot) => *snapshot,
            RateLimitError::TokensPerMinute(snapshot) => *snapshot,
            RateLimitError::TokensPerDay(snapshot) => *snapshot,
        }
    }

    /// The message for each quota.
    pub open spec fn spec_message(&self) -> Seq<char> {
        match self {
            RateLimitError::RequestsPerMinute(_) => "requests per minute quota exceeded"@,
            RateLimitError::TokensPerMinute(_) => "tokens per minute quota exceeded"@,
            RateLimitError::TokensPerDay(_) => "tokens per day quota exceeded"@,
        }
    }

    pub fn message(&self) -> (text: &'static str)
        ensures
            text@ == self.spec_message(),
    {
        match self {
            RateLimitError::RequestsPerMinute(_) => "requests per minute quota exceeded",
            RateLimitError::TokensPerMinute(_) => "tokens per minute quota exceeded",
            RateLimitError::TokensPerDay(_) => "tokens per day quota exceeded",
        }
    }

    pub fn snapshot(&self) -> (snapshot: &RateLimitSnapshot)
        ensures
            *snapshot == self.spec_snapshot(),
    {
        match self {
            RateLimitError::RequestsPerMinute(snapshot) => snapshot,
            RateLimitError::TokensPerMinute(snapshot) => snapshot,
            RateLimitError::TokensPerDay(snapshot) => snapshot,
        }
    }
}

/// The in-process limiter: one set of counters per API key.
pub struct RateLimiter {
    usage: KeyedTable<KeyUsage>,
}

impl RateLimiter {
    pub closed spec fn wf(&self) -> bool {
        self.usage.wf()
    }

    /// The counters kept for each key.
    pub closed spec fn view(&self) -> Map<Seq<char>, KeyUsage> {
        self.usage@
    }

    /// The counters that a check of `key` at `now` starts from: the stored
    /// ones, or fresh ones for a key not seen before.
    pub open spec fn usage_or_fresh(&self, key: Seq<char>, now: u64) -> KeyUsage {
        if self@.contains_key(key) {
            self@[key]
        } else {
            KeyUsage::fresh(now)
        }
    }

    /// What a check at time `now` does to the limiter and returns.
    pub open spec fn checked_at(
        &self,
        after: &RateLimiter,
        key: Seq<char>,
        policy: RatePolicy,
        estimated: u64,
        now: u64,
        result: Result<RateLimitSnapshot, RateLimitError>,
    ) -> bool {
        let start = self.usage_or_fresh(key, now);
        &&& after@ == self@.insert(key, usage_after_check(start, policy, estimated, now))
        &&& result == verdict_of_check(start, policy, estimated, now)
    }

    /// What a reconciliation at time `now` does to the limiter: the windows of
    /// the key are refreshed and its token counters corrected; nothing happens
    /// where the key is unknown.
    pub open spec fn reconciled_at(
        &self,
        after: &RateLimiter,
        key: Seq<char>,
        estimated: u64,
        actual: u64,
        now: u64,
    ) -> bool {
        if !self@.contains_key(key) {
            after@ == self@
        } else {
            after@ == self@.insert(key, reconciled(refreshed(self@[key], now), estimated, actual))
        }
    }

    /// A limiter that has seen no key.
    pub fn in_memory() -> (limiter: Self)
        ensures
            limiter.wf(),
            limiter@ == Map::<Seq<char>, KeyUsage>::empty(),
    {
        RateLimiter { usage: KeyedTable::new() }
    }

    /// The counters stored for `api_key`, if it was seen before.
    pub fn usage_of(&self, api_key: &str) -> (usage: Option<KeyUsage>)
        requires
            self.wf(),
        ensures
            usage == (if self@.contains_key(api_key@) {
                Some(self@[api_key@])
            } else {
                None
            }),
    {
        match self.usage.get(api_key) {
            Some(usage) => Some(*usage),
            None => None,
        }
    }

    /// Admits or rejects one request of `estimated_tokens` for `api_key` at
    /// time `now` (seconds since the Unix epoch), creating the key's counters
    /// if it was not seen before.
    pub fn check_and_consume(
        &mut self,
        api_key: &str,
        policy: &RatePolicy,
        estimated_tokens: u64,
        now: u64,
    ) -> (result: Result<RateLimitSnapshot, RateLimitError>)
        requires
            old(self).wf(),
        ensures
            final(self).wf(),
            old(self).checked_at(final(self), api_key@, *policy, estimated_tokens, now, result),
    {
        let mut usage = match self.usage.get(api_key) {
            Some(usage) => *usage,
            None => KeyUsage::new(now),
        };
        let result = check_usage(&mut usage, policy, estimated_tokens, now);
        self.usage.insert(api_key.to_owned(), usage);
        result
    }

    /// Corrects the token counters of `api_key` at time `now`, once the real
    /// usage is known.
    pub fn reconcile_tokens(&mut self, api_key: &str, estimated: u64, actual: u64, now: u64)
        requires
            old(self).wf(),
        ensures
            final(self).wf(),
            old(self).reconciled_at(final(self), api_key@, estimated, actual, now),
    {
        let mut usage = match self.usage.get(api_key) {
            Some(usage) => *usage,
            None => {
                return ;
            },
        };
        reconcile_usage(&mut usage, estimated, actual, now);
        self.usage.insert(api_key.to_owned(), usage);
    }
}

/// Words in all messages up to, not including, index `n`.
pub open spec fn prompt_words(messages: Seq<NormalizedMessage>, n: int) -> nat
    decreases n,
{
    if n <= 0 {
        0
    } else {
        prompt_words(messages, n - 1) + word_count(messages[n - 1].content@)
    }
}

/// The completion budget: `max_tokens`, or 256 where none was asked for.
pub open spec fn completion_budget(max_tokens: Option<u32>) -> nat {
    match max_tokens {
        Some(n) => n as nat,
        None => 256,
    }
}

/// The token estimate of a request: the words of its messages plus the
/// completion budget.
pub open spec fn estimated_tokens(request: &NormalizedChatRequest) -> nat {
    prompt_words(request.messages@, request.messages@.len() as int) + completion_budget(
        request.generation.max_tokens,
    )
}

/// Rough token count of a text: its whitespace-separated words.
pub fn rough_token_estimate(text: &str) -> (count: u64)
    ensures
        count == word_count(text@),
{
    count_words(text)
}

/// Words in all the messages, capped at the largest `u64`.
pub fn prompt_word_total(messages: &Vec<NormalizedMessage>) -> (total: u64)
    ensures
        prompt_words(messages@, messages@.len() as int) <= u64::MAX ==> total == prompt_words(
            messages@,
            messages@.len() as int,
        ),
        prompt_words(messages@, messages@.len() as int) > u64::MAX ==> total == u64::MAX,
{
    let mut total: u64 = 0;
    let mut i: usize = 0;
    while i < messages.len()
        invariant
            i <= messages@.len(),
            prompt_words(messages@, i as int) <= u64::MAX ==> total == prompt_words(
                messages@,
                i as int,
            ),
            prompt_words(messages@, i as int) > u64::MAX ==> total == u64::MAX,
        decreases messages@.len() - i,
    {
        let words = rough_token_estimate(messages[i].content.as_str());
        total = total.saturating_add(words);
        i += 1;
    }
    total
}

/// Estimates the tokens a request will cost; the result is capped at the
/// largest `u64`.
pub fn estimate_request_tokens(request: &NormalizedChatRequest) -> (estimate: u64)
    ensures
        estimated_tokens(request) <= u64::MAX ==> estimate == estimated_tokens(request),
        estimated_tokens(request) > u64::MAX ==> estimate == u64::MAX,
{
    let prompt_tokens = prompt_word_total(&request.messages);
    let completion_estimate: u64 = match request.generation.max_tokens {
        Some(n) => n as u64,
        None => 256,
    };
    prompt_tokens.saturating_add(completion_estimate)
}

/// Seconds until a window that resets at `reset` is over, at least one.
pub open spec fn window_ttl(reset: u64, now: u64) -> u64 {
    if reset > now + 1 {
        (reset - now) as u64
    } else {
        1
    }
}

/// A count as the shared store's script takes it: capped at the largest `i64`.
pub open spec fn script_number(n: u64) -> i64 {
    if n > i64::MAX {
        i64::MAX
    } else {
        n as i64
    }
}

/// A count as the shared store's script reports it: never below zero.
pub open spec fn reported_count(n: i64) -> u64 {
    if n < 0 {
        0
    } else {
        n as u64
    }
}

/// Name of a counter in the shared store: prefix, key, window letter, window
/// start and unit, separated by colons after the marker `rl`.
pub open spec fn counter_name(
    prefix: Seq<char>,
    api_key: Seq<char>,
    window: Seq<char>,
    start: u64,
    unit: Seq<char>,
) -> Seq<char> {
    prefix + ":rl:"@ + api_key + ":"@ + window + ":"@ + decimal(start as nat) + ":"@ + unit
}

pub fn counter_key(prefix: &str, api_key: &str, window: &str, start: u64, unit: &str) -> (name: String)
    ensures
        name@ == counter_name(prefix@, api_key@, window@, start, unit@),
{
    let mut name = prefix.to_owned();
    name.append(":rl:");
    name.append(api_key);
    name.append(":");
    name.append(window);
    name.append(":");
    name.append(u64_to_decimal(start).as_str());
    name.append(":");
    name.append(unit);
    name
}

pub fn window_ttl_secs(reset: u64, now: u64) -> (ttl: u64)
    ensures
        ttl == window_ttl(reset, now),
{
    if reset > now && reset - now > 1 {
        reset - now
    } else {
        1
    }
}

pub fn to_script_number(n: u64) -> (r: i64)
    ensures
        r == script_number(n),
{
    if n > 0x7fff_ffff_ffff_ffff {
        0x7fff_ffff_ffff_ffff
    } else {
        n as i64
    }
}

/// One run of the shared store's check script: the three counters it works
/// on and its eight arguments.
#[derive(Debug)]
pub struct ScriptCall {
    pub req_key: String,
    pub tok_min_key: String,
    pub tok_day_key: String,
    pub args: Vec<i64>,
}

/// The arguments of the check script: the two increments, the three limits
/// and the three times to live.
pub open spec fn script_args(policy: RatePolicy, estimated: u64, now: u64) -> Seq<i64> {
    let minute_ttl = window_ttl(minute_start(now).saturating_add(60), now);
    let day_ttl = window_ttl(day_start(now).saturating_add(86_400), now);
    seq![
        1i64,
        script_number(estimated),
        policy.requests_per_minute as i64,
        script_number(policy.tokens_per_minute),
        script_number(policy.tokens_per_day),
        script_number(minute_ttl),
        script_number(minute_ttl),
        script_number(day_ttl),
    ]
}

/// Prepares the atomic check of one request against the shared store.
pub fn plan_shared_check(
    prefix: &str,
    api_key: &str,
    policy: &RatePolicy,
    estimated_tokens: u64,
    now: u64,
) -> (call: ScriptCall)
    ensures
        call.req_key@ == counter_name(prefix@, api_key@, "m"@, minute_start(now), "req"@),
        call.tok_min_key@ == counter_name(prefix@, api_key@, "m"@, minute_start(now), "tok"@),
        call.tok_day_key@ == counter_name(prefix@, api_key@, "d"@, day_start(now), "tok"@),
        call.args@ == script_args(*policy, estimated_tokens, now),
{
    let minute = current_minute_start(now);
    let day = current_day_start(now);
    let minute_ttl = window_ttl_secs(minute.saturating_add(60), now);
    let day_ttl = window_ttl_secs(day.saturating_add(86_400), now);
    let mut args: Vec<i64> = Vec::new();
    args.push(1);
    args.push(to_script_number(estimated_tokens));
    args.push(policy.requests_per_minute as i64);
    args.push(to_script_number(policy.tokens_per_minute));
    args.push(to_script_number(policy.tokens_per_day));
    args.push(to_script_number(minute_ttl));
    args.push(to_script_number(minute_ttl));
    args.push(to_script_number(day_ttl));
    assert(args@ =~= script_args(*policy, estimated_tokens, now));
    ScriptCall {
        req_key: counter_key(prefix, api_key, "m", minute, "req"),
        tok_min_key: counter_key(prefix, api_key, "m", minute, "tok"),
        tok_day_key: counter_key(prefix, api_key, "d", day, "tok"),
        args,
    }
}

/// A count before an increment was added to it, never below zero.
pub open spec fn count_before(count: u64, increment: u64) -> u64 {
    if count < increment {
        0
    } else {
        (count - increment) as u64
    }
}

/// The verdict that a reply of the check script stands for, where the script
/// was run for one request of `estimated` tokens.
///
/// A reply of four numbers holds the admission flag and the three counts with
/// the request counted in. An admission carries the snapshot of those counts.
/// A rejection names the first quota, in checking order, that the counts
/// exceed (the daily one if neither of the first two is exceeded); since the
/// script takes a rejected request out of the counters again, its snapshot is
/// that of the counts without the request. Any other reply, or none (the
/// store could not be reached), admits with the snapshot of an unused key.
pub open spec fn verdict_of_reply(
    policy: RatePolicy,
    reply: Option<Seq<i64>>,
    estimated: u64,
    now: u64,
) -> Result<RateLimitSnapshot, RateLimitError> {
    match reply {
        Some(values) if values.len() == 4 => {
            let requests = reported_count(values[1]);
            let tokens_minute = reported_count(values[2]);
            let tokens_day = reported_count(values[3]);
            let tokens = script_number(estimated) as u64;
            let unchanged = snapshot_of_counts(
                policy,
                count_before(requests, 1),
                count_before(tokens_minute, tokens),
                count_before(tokens_day, tokens),
                now,
            );
            if values[0] == 1 {
                Ok(snapshot_of_counts(policy, requests, tokens_minute, tokens_day, now))
            } else if requests > policy.requests_per_minute {
                Err(RateLimitError::RequestsPerMinute(unchanged))
            } else if tokens_minute > policy.tokens_per_minute {
                Err(RateLimitError::TokensPerMinute(unchanged))
            } else {
                Err(RateLimitError::TokensPerDay(unchanged))
            }
        },
        _ => Ok(snapshot_of_counts(policy, 0, 0, 0, now)),
    }
}

fn count_of(n: i64) -> (r: u64)
    ensures
        r == reported_count(n),
{
    if n < 0 {
        0
    } else {
        n as u64
    }
}

/// Reads the reply of the check script that was run for one request of
/// `estimated_tokens` (`None` where the store could not be reached or the
/// script failed).
pub fn interpret_shared_reply(
    policy: &RatePolicy,
    reply: Option<&Vec<i64>>,
    estimated_tokens: u64,
    now: u64,
) -> (result: Result<RateLimitSnapshot, RateLimitError>)
    ensures
        result == verdict_of_reply(
            *policy,
            match reply {
                Some(values) => Some(values@),
                None => None,
            },
            estimated_tokens,
            now,
        ),
{
    let values = match reply {
        Some(values) => values,
        None => {
            return Ok(empty_snapshot(policy, now));
        },
    };
    if values.len() != 4 {
        return Ok(empty_snapshot(policy, now));
    }
    let requests = count_of(values[1]);
    let tokens_minute = count_of(values[2]);
    let tokens_day = count_of(values[3]);
    if values[0] == 1 {
        return Ok(snapshot_from_counts(policy, requests, tokens_minute, tokens_day, now));
    }
    let tokens = to_script_number(estimated_tokens) as u64;
    let unchanged = snapshot_from_counts(
        policy,
        requests.saturating_sub(1),
        tokens_minute.saturating_sub(tokens),
        tokens_day.saturating_sub(tokens),
        now,
    );
    if requests > policy.requests_per_minute as u64 {
        Err(RateLimitError::RequestsPerMinute(unchanged))
    } else if tokens_minute > policy.tokens_per_minute {
        Err(RateLimitError::TokensPerMinute(unchanged))
    } else {
        Err(RateLimitError::TokensPerDay(unchanged))
    }
}

/// A rejection read from the shared store shows the usage as it stands: for
/// counts `(r, tm, td)` before the request, which the script reports with the
/// request counted in, what is left of each quota is the limit less `r`, `tm`
/// or `td`, and the quota named is the first one that the request would
/// exceed.
pub proof fn lemma_shared_rejection_shows_unchanged_usage(
    policy: RatePolicy,
    requests: u32,
    tokens_minute: u64,
    tokens_day: u64,
    estimated: u64,
    now: u64,
)
    requires
        estimated <= i64::MAX,
        tokens_minute + estimated <= i64::MAX,
        tokens_day + estimated <= i64::MAX,
        requests + 1 > policy.requests_per_minute || tokens_minute + estimated
            > policy.tokens_per_minute || tokens_day + estimated > policy.tokens_per_day,
    ensures
        ({
            let usage = KeyUsage {
                minute_started_at: minute_start(now),
                day_started_at: day_start(now),
                requests_in_minute: requests,
                tokens_in_minute: tokens_minute,
                tokens_in_day: tokens_day,
            };
            let reply = seq![
                0i64,
                (requests + 1) as i64,
                (tokens_minute + estimated) as i64,
                (tokens_day + estimated) as i64,
            ];
            verdict_of_reply(policy, Some(reply), estimated, now) == verdict_of_check(
                usage,
                policy,
                estimated,
                now,
            )
        }),
{
}

/// A correction of the two token counters in the shared store.
#[derive(Debug)]
pub struct SharedReconcile {
    pub tok_min_key: String,
    pub tok_day_key: String,
    /// Whether the counters grow (the real usage was above the estimate).
    pub increase: bool,
    pub amount: i64,
    pub minute_ttl: i64,
    pub day_ttl: i64,
}

/// Prepares the correction of the token counters in the shared store by
/// `actual - estimated`; there is none to make where the estimate was exact.
pub fn plan_shared_reconcile(prefix: &str, api_key: &str, estimated: u64, actual: u64, now: u64) -> (plan:
    Option<SharedReconcile>)
    ensures
        estimated == actual ==> plan is None,
        estimated != actual ==> plan is Some && {
            let p = plan->Some_0;
            &&& p.tok_min_key@ == counter_name(prefix@, api_key@, "m"@, minute_start(now), "tok"@)
            &&& p.tok_day_key@ == counter_name(prefix@, api_key@, "d"@, day_start(now), "tok"@)
            &&& p.increase == (actual > estimated)
            &&& p.amount == script_number(
                if actual > estimated {
                    (actual - estimated) as u64
                } else {
                    (estimated - actual) as u64
                },
            )
            &&& p.minute_ttl == script_number(
                window_ttl(minute_start(now).saturating_add(60), now),
            )
            &&& p.day_ttl == script_number(window_ttl(day_start(now).saturating_add(86_400), now))
        },
{
    if estimated == actual {
        return None;
    }
    let minute = current_minute_start(now);
    let day = current_day_start(now);
    let diff: u64 = if actual > estimated {
        actual - estimated
    } else {
        estimated - actual
    };
    Some(
        SharedReconcile {
            tok_min_key: counter_key(prefix, api_key, "m", minute, "tok"),
            tok_day_key: counter_key(prefix, api_key, "d", day, "tok"),
            increase: actual > estimated,
            amount: to_script_number(diff),
            minute_ttl: to_script_number(window_ttl_secs(minute.saturating_add(60), now)),
            day_ttl: to_script_number(window_ttl_secs(day.saturating_add(86_400), now)),
        },
    )
}

} // verus!
