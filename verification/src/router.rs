//! Health-aware selection among backend endpoints: round-robin with a
//! circuit breaker per endpoint. Endpoints are known by their position; times
//! are milliseconds on the caller's monotonic clock.

use vstd::prelude::*;
use vstd::string::*;
use crate::backend::BackendError;
use crate::models::{GenerationParams, MessageRole, NormalizedChatRequest, NormalizedMessage};

verus! {

#[derive(Debug, Clone, Copy, PartialEq, Eq, Structural)]
pub struct EndpointHealth {
    pub consecutive_failures: u32,
    pub circuit_open_until: Option<u64>,
    pub last_latency_ms: Option<u64>,
}

pub struct BackendRouter {
    endpoints: Vec<EndpointHealth>,
    next_index: usize,
    failure_threshold: u32,
    cooldown_ms: u64,
}

/// The health of an endpoint that has not been called yet.
pub open spec fn healthy() -> EndpointHealth {
    EndpointHealth { consecutive_failures: 0, circuit_open_until: None, last_latency_ms: None }
}

/// An endpoint may be selected unless its circuit is open beyond `now`.
pub open spec fn eligible(health: EndpointHealth, now: u64) -> bool {
    match health.circuit_open_until {
        Some(until) => until <= now,
        None => true,
    }
}

/// Health of an endpoint after it was selected: a circuit whose cooldown has
/// passed is closed and its failures are forgotten.
pub open spec fn after_selection(health: EndpointHealth) -> EndpointHealth {
    match health.circuit_open_until {
        Some(_) => EndpointHealth { consecutive_failures: 0, circuit_open_until: None, ..health },
        None => health,
    }
}

/// Health of an endpoint after a call that succeeded.
pub open spec fn after_success(latency_ms: u64) -> EndpointHealth {
    EndpointHealth {
        consecutive_failures: 0,
        circuit_open_until: None,
        last_latency_ms: Some(latency_ms),
    }
}

/// Health of an endpoint after a call that failed at `now`: one more failure
/// (counted up to the largest `u32`), and the circuit open until `now +
/// cooldown_ms` (at most the largest `u64`) once `threshold` is reached.
pub open spec fn after_failure(
    health: EndpointHealth,
    latency_ms: u64,
    now: u64,
    threshold: u32,
    cooldown_ms: u64,
) -> EndpointHealth {
    let failures = health.consecutive_failures.saturating_add(1);
    EndpointHealth {
        consecutive_failures: failures,
        circuit_open_until: if failures >= threshold {
            Some(now.saturating_add(cooldown_ms))
        } else {
            health.circuit_open_until
        },
        last_latency_ms: Some(latency_ms),
    }
}

/// The position `(cursor + offset) mod total`, for `offset < total`.
pub open spec fn candidate(cursor: usize, offset: int, total: int) -> int {
    let base = cursor as int % total;
    if base + offset < total {
        base + offset
    } else {
        base + offset - total
    }
}

/// The first eligible endpoint in round-robin order from `cursor`, trying
/// offsets `offset..total`.
pub open spec fn first_eligible(
    endpoints: Seq<EndpointHealth>,
    cursor: usize,
    offset: int,
    now: u64,
) -> Option<int>
    decreases endpoints.len() - offset,
{
    if offset < 0 || offset >= endpoints.len() {
        None
    } else if eligible(endpoints[candidate(cursor, offset, endpoints.len() as int)], now) {
        Some(candidate(cursor, offset, endpoints.len() as int))
    } else {
        first_eligible(endpoints, cursor, offset + 1, now)
    }
}

/// The cursor after one selection; it wraps around at the largest `usize`.
pub open spec fn next_cursor(cursor: usize) -> usize {
    if cursor == usize::MAX {
        0
    } else {
        (cursor + 1) as usize
    }
}

impl BackendRouter {
    pub closed spec fn endpoints(&self) -> Seq<EndpointHealth> {
        self.endpoints@
    }

    pub closed spec fn cursor(&self) -> usize {
        self.next_index
    }

    pub closed spec fn failure_threshold(&self) -> u32 {
        self.failure_threshold
    }

    pub closed spec fn cooldown_ms(&self) -> u64 {
        self.cooldown_ms
    }

    /// A router has at least one endpoint.
    pub open spec fn wf(&self) -> bool {
        self.endpoints().len() > 0
    }

    /// Threshold and cooldown never change.
    pub open spec fn same_settings(&self, other: &BackendRouter) -> bool {
        &&& self.failure_threshold() == other.failure_threshold()
        &&& self.cooldown_ms() == other.cooldown_ms()
    }

    /// A router over `count` endpoints, all healthy, that opens a circuit
    /// after 3 consecutive failures for 20 seconds.
    pub fn new(count: usize) -> (router: Self)
        requires
            count > 0,
        ensures
            router.wf(),
            router.endpoints() == Seq::new(count as nat, |i: int| healthy()),
            router.cursor() == 0,
            router.failure_threshold() == 3,
            router.cooldown_ms() == 20_000,
    {
        let mut endpoints: Vec<EndpointHealth> = Vec::new();
        let mut i: usize = 0;
        while i < count
            invariant
                i <= count,
                endpoints@ == Seq::new(i as nat, |k: int| healthy()),
            decreases count - i,
        {
            endpoints.push(
                EndpointHealth {
                    consecutive_failures: 0,
                    circuit_open_until: None,
                    last_latency_ms: None,
                },
            );
            assert(endpoints@ =~= Seq::new((i + 1) as nat, |k: int| healthy()));
            i += 1;
        }
        BackendRouter { endpoints, next_index: 0, failure_threshold: 3, cooldown_ms: 20_000 }
    }

    /// Number of endpoints.
    pub fn endpoint_count(&self) -> (count: usize)
        ensures
            count == self.endpoints().len(),
    {
        self.endpoints.len()
    }

    /// Health of one endpoint.
    pub fn health(&self, endpoint: usize) -> (health: EndpointHealth)
        requires
            endpoint < self.endpoints().len(),
        ensures
            health == self.endpoints()[endpoint as int],
    {
        self.endpoints[endpoint]
    }

    /// Picks the first eligible endpoint in round-robin order and advances
    /// the cursor. An endpoint whose circuit is open beyond `now` is never
    /// picked; where all are, the call fails and no health changes.
    pub fn select_endpoint(&mut self, now: u64) -> (result: Result<usize, BackendError>)
        requires
            old(self).wf(),
        ensures
            final(self).wf(),
            final(self).same_settings(old(self)),
            final(self).cursor() == next_cursor(old(self).cursor()),
            match first_eligible(old(self).endpoints(), old(self).cursor(), 0, now) {
                Some(index) => {
                    &&& result matches Ok(picked)
                    &&& picked == index
                    &&& 0 <= index < old(self).endpoints().len()
                    &&& eligible(old(self).endpoints()[index], now)
                    &&& final(self).endpoints() == old(self).endpoints().update(
                        index,
                        after_selection(old(self).endpoints()[index]),
                    )
                },
                None => {
                    &&& result matches Err(BackendError::Unavailable(message))
                    &&& message@ == "all backends are currently unhealthy"@
                    &&& final(self).endpoints() == old(self).endpoints()
                },
            },
    {
        let total: usize = self.endpoints.len();
        let start: usize = self.next_index;
        self.next_index = if start == usize::MAX {
            0
        } else {
            start + 1
        };
        let base: usize = start % total;
        let mut offset: usize = 0;
        while offset < total
            invariant
                total == self.endpoints@.len(),
                total > 0,
                offset <= total,
                base == start as int % total as int,
                self.endpoints@ == old(self).endpoints@,
                self.failure_threshold == old(self).failure_threshold,
                self.cooldown_ms == old(self).cooldown_ms,
                self.next_index == next_cursor(start),
                start == old(self).next_index,
                first_eligible(self.endpoints@, start, 0, now) == first_eligible(
                    self.endpoints@,
                    start,
                    offset as int,
                    now,
                ),
            decreases total - offset,
        {
            let index: usize = if offset < total - base {
                base + offset
            } else {
                offset - (total - base)
            };
            assert(index == candidate(start, offset as int, total as int));
            let health = self.endpoints[index];
            let open = match health.circuit_open_until {
                Some(until) => until > now,
                None => false,
            };
            if !open {
                if health.circuit_open_until.is_some() {
                    self.endpoints.set(
                        index,
                        EndpointHealth {
                            consecutive_failures: 0,
                            circuit_open_until: None,
                            last_latency_ms: health.last_latency_ms,
                        },
                    );
                } else {
                    assert(self.endpoints@ =~= old(self).endpoints@.update(
                        index as int,
                        after_selection(old(self).endpoints@[index as int]),
                    ));
                }
                return Ok(index);
            }
            offset += 1;
        }
        Err(BackendError::Unavailable("all backends are currently unhealthy".to_owned()))
    }

    /// Records a call to `endpoint` that succeeded.
    pub fn mark_success(&mut self, endpoint: usize, latency_ms: u64)
        requires
            endpoint < old(self).endpoints().len(),
        ensures
            final(self).same_settings(old(self)),
            final(self).cursor() == old(self).cursor(),
            final(self).endpoints() == old(self).endpoints().update(
                endpoint as int,
                after_success(latency_ms),
            ),
    {
        self.endpoints.set(
            endpoint,
            EndpointHealth {
                consecutive_failures: 0,
                circuit_open_until: None,
                last_latency_ms: Some(latency_ms),
            },
        );
    }

    /// Records a call to `endpoint` that failed at `now`.
    pub fn mark_failure(&mut self, endpoint: usize, latency_ms: u64, now: u64)
        requires
            endpoint < old(self).endpoints().len(),
        ensures
            final(self).same_settings(old(self)),
            final(self).cursor() == old(self).cursor(),
            final(self).endpoints() == old(self).endpoints().update(
                endpoint as int,
                after_failure(
                    old(self).endpoints()[endpoint as int],
                    latency_ms,
                    now,
                    old(self).failure_threshold(),
                    old(self).cooldown_ms(),
                ),
            ),
    {
        let health = self.endpoints[endpoint];
        let failures = health.consecutive_failures.saturating_add(1);
        let circuit_open_until = if failures >= self.failure_threshold {
            Some(now.saturating_add(self.cooldown_ms))
        } else {
            health.circuit_open_until
        };
        self.endpoints.set(
            endpoint,
            EndpointHealth {
                consecutive_failures: failures,
                circuit_open_until,
                last_latency_ms: Some(latency_ms),
            },
        );
    }

    /// Records the outcome of a call or of a health probe.
    pub fn record_outcome(&mut self, endpoint: usize, succeeded: bool, latency_ms: u64, now: u64)
        requires
            endpoint < old(self).endpoints().len(),
        ensures
            final(self).same_settings(old(self)),
            final(self).cursor() == old(self).cursor(),
            final(self).endpoints() == old(self).endpoints().update(
                endpoint as int,
                if succeeded {
                    after_success(latency_ms)
                } else {
                    after_failure(
                        old(self).endpoints()[endpoint as int],
                        latency_ms,
                        now,
                        old(self).failure_threshold(),
                        old(self).cooldown_ms(),
                    )
                },
            ),
    {
        if succeeded {
            self.mark_success(endpoint, latency_ms);
        } else {
            self.mark_failure(endpoint, latency_ms, now);
        }
    }
}

/// The synthetic request that probes an endpoint's health.
pub fn health_probe_request() -> (request: NormalizedChatRequest)
    ensures
        request.request_id@ == "health-probe"@,
        request.user_id@ == "system"@,
        request.model@ == "health-probe"@,
        request.messages@.len() == 1,
        request.messages@[0].role == MessageRole::User,
        request.messages@[0].content@ == "healthcheck"@,
        request.generation.max_tokens == Some(1u32),
        request.generation.temperature is None,
        request.generation.top_p is None,
        !request.stream,
{
    NormalizedChatRequest {
        request_id: "health-probe".to_owned(),
        user_id: "system".to_owned(),
        model: "health-probe".to_owned(),
        messages: vec![
            NormalizedMessage { role: MessageRole::User, content: "healthcheck".to_owned() },
        ],
        generation: GenerationParams { max_tokens: Some(1), temperature: None, top_p: None },
        stream: false,
    }
}

/// A failure that brings an endpoint to the threshold opens its circuit: the
/// endpoint is not eligible before the cooldown has passed, and is eligible
/// again from then on.
pub proof fn lemma_circuit_opens_at_threshold(
    health: EndpointHealth,
    latency_ms: u64,
    now: u64,
    threshold: u32,
    cooldown_ms: u64,
    later: u64,
)
    requires
        health.consecutive_failures + 1 >= threshold,
    ensures
        eligible(after_failure(health, latency_ms, now, threshold, cooldown_ms), later) <==> later
            >= now.saturating_add(cooldown_ms),
{
}

/// With a threshold of three, the third failure in a row opens the circuit of
/// a healthy endpoint for the cooldown, counted from that failure; the first
/// two leave it closed. Each failure counts and records its latency.
pub proof fn lemma_third_failure_opens_circuit(
    latencies: (u64, u64, u64),
    times: (u64, u64, u64),
    cooldown_ms: u64,
)
    ensures
        ({
            let first = after_failure(healthy(), latencies.0, times.0, 3, cooldown_ms);
            let second = after_failure(first, latencies.1, times.1, 3, cooldown_ms);
            let third = after_failure(second, latencies.2, times.2, 3, cooldown_ms);
            &&& first.consecutive_failures == 1 && first.circuit_open_until is None
            &&& second.consecutive_failures == 2 && second.circuit_open_until is None
            &&& third.consecutive_failures == 3
            &&& third.circuit_open_until == Some(times.2.saturating_add(cooldown_ms))
            &&& third.last_latency_ms == Some(latencies.2)
            &&& forall|later: u64|
                eligible(third, later) <==> later >= times.2.saturating_add(cooldown_ms)
            &&& after_success(latencies.0) == (EndpointHealth {
                last_latency_ms: Some(latencies.0),
                ..healthy()
            })
        }),
{
}

/// Whatever the cursor, the endpoint picked is in range and eligible, and
/// none is picked only where none is eligible.
pub proof fn lemma_first_eligible(endpoints: Seq<EndpointHealth>, cursor: usize, offset: int, now: u64)
    requires
        0 <= offset <= endpoints.len(),
    ensures
        match first_eligible(endpoints, cursor, offset, now) {
            Some(index) => 0 <= index < endpoints.len() && eligible(endpoints[index], now),
            None => forall|k: int|
                offset <= k < endpoints.len() ==> !eligible(
                    endpoints[#[trigger] candidate(cursor, k, endpoints.len() as int)],
                    now,
                ),
        },
    decreases endpoints.len() - offset,
{
    if offset < endpoints.len() {
        lemma_first_eligible(endpoints, cursor, offset + 1, now);
    }
}

} // verus!
