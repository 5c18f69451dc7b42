use rust_llm_inference_gateway::auth::{ApiKeyRegistry, RatePolicy};
use rust_llm_inference_gateway::backend::mock::{
    estimate_usage, render_response, split_for_stream, MockBackend,
};
use rust_llm_inference_gateway::backend::BackendError;
use rust_llm_inference_gateway::batcher::{
    BatchAssembler, BatchClass, BatchConfig, BatchItem, BatchStep,
};
use rust_llm_inference_gateway::cache::{shared_cache_key, CacheConfig, ResponseCache};
use rust_llm_inference_gateway::coalescing::{
    follower_result, is_terminal_item, joined_outcome, leader_outcome, CoalesceOutcome,
    InflightCoalescer, StreamItem,
};
use rust_llm_inference_gateway::errors::AppError;
use rust_llm_inference_gateway::handlers::{
    admit_request, backend_failure, charge_request, completion_headers, leader_forward,
    new_response_id, response_id_from, StreamEncoder, StreamEvent,
};
use rust_llm_inference_gateway::limits::RateLimiter;
use rust_llm_inference_gateway::models::{
    BackendChatResponse, BackendChunk, ChatCompletionsRequest, GenerationParams, MessageRole,
    NormalizedChatRequest, NormalizedMessage, OpenAiMessage, Usage,
};
use rust_llm_inference_gateway::router::{health_probe_request, BackendRouter};
use rust_llm_inference_gateway::scheduler::fingerprint_for;

fn request(model: &str, content: &str, max_tokens: Option<u32>) -> NormalizedChatRequest {
    NormalizedChatRequest {
        request_id: "req_1".to_owned(),
        user_id: "user_1".to_owned(),
        model: model.to_owned(),
        messages: vec![NormalizedMessage {
            role: MessageRole::User,
            content: content.to_owned(),
        }],
        generation: GenerationParams {
            max_tokens,
            temperature: None,
            top_p: None,
        },
        stream: false,
    }
}

fn chunk(delta: Option<&str>, finish: Option<&str>, done: bool) -> BackendChunk {
    BackendChunk {
        delta: delta.map(|text| text.to_owned()),
        finish_reason: finish.map(|text| text.to_owned()),
        usage: None,
        done,
    }
}

#[test]
fn coalesces_identical_one_shot_requests() {
    let mut coalescer: InflightCoalescer<u32> = InflightCoalescer::new();
    let backend = MockBackend::default();
    let request = request("mock", "hello", Some(20));
    let key = "same".to_owned();

    let first = coalescer.execute_or_join(key.clone(), 1);
    let second = coalescer.execute_or_join(key.clone(), 2);
    assert_ne!(first.outcome, second.outcome);
    assert_eq!(first.outcome, CoalesceOutcome::Leader);
    assert_eq!(first.unused, Some(1));
    assert_eq!(second.outcome, CoalesceOutcome::Joined);
    assert_eq!(second.unused, None);

    let leader_result = backend.execute_chat(&request);
    let broadcast = follower_result(&leader_result);
    let waiters = coalescer.complete(&key);
    assert_eq!(waiters, vec![2]);
    let first = leader_outcome(leader_result).expect("first result");
    let second = joined_outcome(Some(broadcast)).expect("second result");
    assert_eq!(first.1, CoalesceOutcome::Leader);
    assert_eq!(second.1, CoalesceOutcome::Joined);
    assert_eq!(first.0.content, second.0.content);
    assert_eq!(first.0.content, "Mock response for model mock: hello");

    let late = coalescer.execute_or_join(key.clone(), 3);
    assert_eq!(late.outcome, CoalesceOutcome::Leader);
    assert!(coalescer.complete(&key).is_empty());
    assert!(coalescer.complete("never seen").is_empty());
}

#[test]
fn followers_see_leader_failure_as_unavailable() {
    let failed: Result<BackendChatResponse, BackendError> =
        Err(BackendError::Timeout("too slow".to_owned()));
    let broadcast = follower_result(&failed);
    assert_eq!(broadcast.clone().expect_err("error"), "backend timeout: too slow");
    let joined = joined_outcome(Some(broadcast)).expect_err("error");
    assert!(matches!(joined, BackendError::Unavailable(_)));
    assert_eq!(
        joined.describe(),
        "backend unavailable: backend timeout: too slow"
    );
    let dropped = joined_outcome(None).expect_err("leader gone");
    assert_eq!(
        dropped.describe(),
        "backend unavailable: leader dropped before completion"
    );
    assert_eq!(
        BackendError::InvalidResponse("x".to_owned()).describe(),
        "backend invalid response: x"
    );
    let rejection = backend_failure(&BackendError::Unavailable("down".to_owned()));
    assert_eq!(rejection.status_code(), 502);
    assert_eq!(rejection.message(), "backend unavailable: down");
}

#[test]
fn stream_joiner_receives_history_and_live_updates() {
    let mut coalescer: InflightCoalescer<u32> = InflightCoalescer::new();
    let key = "stream-key".to_owned();

    let leader = coalescer.join_or_create_stream(key.clone());
    assert!(leader.is_leader);
    assert_eq!(leader.subscriber, 0);
    assert!(leader.replay.is_empty());

    let first_item: StreamItem = Ok(chunk(Some("hello "), None, false));
    let recipients = coalescer.publish_stream_item(&key, first_item);
    assert_eq!(recipients, vec![0]);

    let follower = coalescer.join_or_create_stream(key.clone());
    assert!(!follower.is_leader);
    assert_eq!(follower.subscriber, 1);

    let second_item: StreamItem = Ok(chunk(Some("world"), Some("stop"), true));
    let recipients = coalescer.publish_stream_item(&key, second_item.clone());
    assert_eq!(recipients, vec![0, 1]);

    let mut received = follower.replay;
    received.push(second_item);
    let first = received[0].clone().expect("first chunk should be ok");
    let second = received[1].clone().expect("second chunk should be ok");
    assert_eq!(received.len(), 2);
    assert_eq!(first.delta.as_deref(), Some("hello "));
    assert_eq!(second.delta.as_deref(), Some("world"));
    assert!(second.done);

    let ignored = coalescer.publish_stream_item(&key, Ok(chunk(Some("late"), None, false)));
    assert!(ignored.is_empty());
    let next_epoch = coalescer.join_or_create_stream(key.clone());
    assert!(next_epoch.is_leader);
    assert!(next_epoch.replay.is_empty());
}

#[test]
fn dropped_subscribers_get_nothing_more() {
    let mut coalescer: InflightCoalescer<u32> = InflightCoalescer::new();
    coalescer.join_or_create_stream("k".to_owned());
    coalescer.join_or_create_stream("k".to_owned());
    coalescer.join_or_create_stream("k".to_owned());
    coalescer.drop_subscriber("k", 1);
    coalescer.drop_subscriber("k", 9);
    coalescer.drop_subscriber("other", 0);
    let recipients = coalescer.publish_stream_item("k", Ok(chunk(Some("a"), None, false)));
    assert_eq!(recipients, vec![0, 2]);
    let recipients = coalescer.publish_stream_item("k", Err("boom".to_owned()));
    assert_eq!(recipients, vec![0, 2]);
    assert!(coalescer.join_or_create_stream("k".to_owned()).is_leader);
    assert!(is_terminal_item(&Err("boom".to_owned())));
    assert!(is_terminal_item(&Ok(chunk(None, None, true))));
    assert!(!is_terminal_item(&Ok(chunk(Some("x"), Some("stop"), false))));
}

#[test]
fn returns_cache_hit_on_repeated_identical_non_stream_request() {
    let mut cache = ResponseCache::memory(CacheConfig::from_secs(None));
    let backend = MockBackend::default();
    let request = request("mock-1", "repeat me", None);
    let key = fingerprint_for(&request);

    assert!(cache.get(key.as_str(), 1_000).is_none());
    let response = backend.execute_chat(&request).expect("mock answers");
    cache.set(key.as_str(), &response, 1_000);

    let hit = cache.get(key.as_str(), 1_500).expect("cached");
    assert_eq!(hit.content, response.content);
    assert_eq!(hit.content, "Mock response for model mock-1: repeat me");
    assert_eq!(hit.usage, response.usage);
    let snapshot = rust_llm_inference_gateway::limits::empty_snapshot(
        &RatePolicy {
            requests_per_minute: 1,
            tokens_per_minute: 1,
            tokens_per_day: 1,
        },
        0,
    );
    let miss = completion_headers(&snapshot, false);
    let hit = completion_headers(&snapshot, true);
    assert_eq!(miss.len(), 9);
    assert_eq!(miss[8], ("x-cache".to_owned(), "miss".to_owned()));
    assert_eq!(hit[8], ("x-cache".to_owned(), "hit".to_owned()));
    assert_eq!(miss[0].0, "x-ratelimit-limit-requests-minute");
}

#[test]
fn cache_entries_expire_after_ttl() {
    let config = CacheConfig::from_secs(Some(2));
    assert_eq!(config.ttl_ms, 2_000);
    assert_eq!(config.ttl_secs(), 2);
    assert_eq!(CacheConfig::from_secs(None).ttl_ms, 90_000);
    assert_eq!(CacheConfig::from_secs(Some(u64::MAX)).ttl_ms, u64::MAX);
    let mut cache = ResponseCache::memory(config);
    let value = BackendChatResponse {
        content: "v".to_owned(),
        finish_reason: "stop".to_owned(),
        usage: Usage::new(1, 1),
    };
    cache.set("k", &value, 10);
    assert!(cache.get("other", 10).is_none());
    assert_eq!(cache.get("k", 2_009).expect("fresh").content, "v");
    assert!(cache.get("k", 2_010).is_none());
    assert!(cache.get("k", 11).is_none());
    cache.set("k", &value, 10);
    let newer = BackendChatResponse {
        content: "w".to_owned(),
        finish_reason: "stop".to_owned(),
        usage: Usage::new(1, 1),
    };
    cache.set("k", &newer, 20);
    assert_eq!(cache.get("k", 2_015).expect("replaced").content, "w");
    assert_eq!(shared_cache_key("gateway", "abc"), "gateway:cache:chat:abc");
}

#[test]
fn failing_backend_is_skipped_until_cooldown_passes() {
    let mut router = BackendRouter::new(2);
    assert_eq!(router.endpoint_count(), 2);
    for now in [100u64, 200, 300] {
        router.mark_failure(0, 5, now);
    }
    let health = router.health(0);
    assert_eq!(health.consecutive_failures, 3);
    assert_eq!(health.circuit_open_until, Some(20_300));
    assert_eq!(health.last_latency_ms, Some(5));
    for now in [301u64, 302, 303, 20_299] {
        assert_eq!(router.select_endpoint(now).expect("one is healthy"), 1);
    }
    let mut picked = vec![];
    for _ in 0..2 {
        picked.push(router.select_endpoint(20_300).expect("both eligible"));
    }
    picked.sort();
    assert_eq!(picked, vec![0, 1]);
    let health = router.health(0);
    assert_eq!(health.consecutive_failures, 0);
    assert_eq!(health.circuit_open_until, None);
}

#[test]
fn router_fails_when_every_circuit_is_open() {
    let mut router = BackendRouter::new(1);
    assert_eq!(router.select_endpoint(0).expect("healthy"), 0);
    router.mark_failure(0, 1, 10);
    router.mark_failure(0, 1, 10);
    assert_eq!(router.select_endpoint(11).expect("below threshold"), 0);
    router.record_outcome(0, false, 1, 10);
    let error = router.select_endpoint(11).expect_err("open");
    assert_eq!(
        error.describe(),
        "backend unavailable: all backends are currently unhealthy"
    );
    router.record_outcome(0, true, 7, 12);
    assert_eq!(router.health(0).last_latency_ms, Some(7));
    assert_eq!(router.select_endpoint(13).expect("closed again"), 0);
}

#[test]
fn router_goes_round_robin() {
    let mut router = BackendRouter::new(3);
    let picks: Vec<usize> = (0..7)
        .map(|_| router.select_endpoint(0).expect("healthy"))
        .collect();
    assert_eq!(picks, vec![0, 1, 2, 0, 1, 2, 0]);
    let probe = health_probe_request();
    assert_eq!(probe.model, "health-probe");
    assert_eq!(probe.request_id, "health-probe");
    assert_eq!(probe.user_id, "system");
    assert_eq!(probe.messages.len(), 1);
    assert_eq!(probe.messages[0].content, "healthcheck");
    assert_eq!(probe.generation.max_tokens, Some(1));
    assert!(!probe.stream);
}

fn tickets(items: &[BatchItem<u32>]) -> Vec<u32> {
    items.iter().map(|item| item.response_tx).collect()
}

#[test]
fn batches_group_by_class_and_defer_the_rest() {
    let config = BatchConfig::from_settings(None, Some(3), Some(10));
    assert!(config.enabled);
    assert_eq!(config.max_batch_size, 3);
    assert_eq!(config.max_wait_ms, 10);
    let mut assembler: BatchAssembler<u32> = BatchAssembler::new(config);
    assert!(matches!(assembler.next_step(0), BatchStep::AwaitFirst));

    assembler.offer(BatchItem::new(request("a", "x", None), 1), 100);
    match assembler.next_step(100) {
        BatchStep::AwaitMore { timeout_ms } => assert_eq!(timeout_ms, 10),
        _ => panic!("the batch has room and time"),
    }
    assembler.offer(BatchItem::new(request("b", "x", None), 2), 103);
    assembler.offer(BatchItem::new(request("a", "y", None), 3), 104);
    match assembler.next_step(104) {
        BatchStep::AwaitMore { timeout_ms } => assert_eq!(timeout_ms, 6),
        _ => panic!("the batch has room and time"),
    }
    assembler.offer(BatchItem::new(request("b", "z", None), 4), 105);
    match assembler.next_step(110) {
        BatchStep::Dispatch(items) => assert_eq!(tickets(&items), vec![1, 3]),
        _ => panic!("the batch is due"),
    }
    assembler.offer(BatchItem::new(request("b", "w", Some(5)), 5), 111);
    match assembler.next_step(111) {
        BatchStep::AwaitMore { timeout_ms } => assert_eq!(timeout_ms, 10),
        _ => panic!("a new batch started from the deferred queue"),
    }
    assert_eq!(tickets(&assembler.batch), vec![2, 4]);
    assert_eq!(tickets(&assembler.pending), vec![5]);
    assembler.offer(BatchItem::new(request("b", "v", None), 6), 112);
    match assembler.next_step(112) {
        BatchStep::Dispatch(items) => assert_eq!(tickets(&items), vec![2, 4, 6]),
        _ => panic!("the batch is full"),
    }
    match assembler.next_step(113) {
        BatchStep::AwaitMore { timeout_ms } => assert_eq!(timeout_ms, 10),
        _ => panic!("the deferred item starts a batch"),
    }
    assert_eq!(tickets(&assembler.flush()), vec![5]);
    assert!(matches!(assembler.next_step(114), BatchStep::AwaitFirst));
}

#[test]
fn disabled_batching_dispatches_one_by_one() {
    let config = BatchConfig::from_settings(Some(false), Some(0), None);
    assert!(!config.enabled);
    assert_eq!(config.max_batch_size, 8);
    let mut assembler: BatchAssembler<u32> = BatchAssembler::new(config);
    assembler.offer(BatchItem::new(request("a", "x", None), 1), 0);
    assembler.offer(BatchItem::new(request("a", "x", None), 2), 0);
    match assembler.next_step(0) {
        BatchStep::Dispatch(items) => assert_eq!(tickets(&items), vec![1]),
        _ => panic!("dispatched alone"),
    }
    match assembler.next_step(0) {
        BatchStep::Dispatch(items) => assert_eq!(tickets(&items), vec![2]),
        _ => panic!("dispatched alone"),
    }
    let class = BatchClass::from_request(&request("a", "x", Some(3)));
    assert_eq!(class.model, "a");
    assert_eq!(class.max_tokens, Some(3));
    assert_eq!(class.temperature_repr, "none");
    assert!(class.matches(&BatchClass::from_request(&request("a", "other", Some(3)))));
    assert!(!class.matches(&BatchClass::from_request(&request("a", "x", None))));
}

#[test]
fn mock_backend_echoes_last_user_message() {
    let backend = MockBackend::named("mock-a");
    assert_eq!(backend.name(), "mock-a");
    assert_eq!(backend.token_delay_ms(), 35);
    assert_eq!(MockBackend::default().name(), "mock-backend");
    let mut request = request("mock-1", "first question", None);
    request.messages.push(NormalizedMessage {
        role: MessageRole::User,
        content: "second  question here".to_owned(),
    });
    request.messages.push(NormalizedMessage {
        role: MessageRole::Assistant,
        content: "ignored".to_owned(),
    });
    assert_eq!(
        render_response(&request),
        "Mock response for model mock-1: second  question here"
    );
    let response = backend.execute_chat(&request).expect("never fails");
    assert_eq!(response.finish_reason, "stop");
    assert_eq!(response.usage.prompt_tokens, 6);
    assert_eq!(response.usage.completion_tokens, 8);
    assert_eq!(response.usage.total_tokens, 14);
    assert_eq!(estimate_usage(&request, "a b c").completion_tokens, 3);
    let mut silent = request.clone();
    silent.messages.clear();
    assert_eq!(render_response(&silent), "Mock response for model mock-1: hello");
}

#[test]
fn mock_stream_ends_with_one_done_chunk() {
    assert_eq!(split_for_stream("  a  bc d "), vec!["a ", "bc ", "d"]);
    assert!(split_for_stream(" \t").is_empty());
    assert_eq!(split_for_stream("one"), vec!["one"]);
    let chunks = MockBackend::default().stream_chunks(&request("m", "hi you", Some(4)));
    let deltas: Vec<Option<&str>> = chunks.iter().map(|chunk| chunk.delta.as_deref()).collect();
    assert_eq!(
        deltas,
        vec![
            Some("Mock "),
            Some("response "),
            Some("for "),
            Some("model "),
            Some("m: "),
            Some("hi "),
            Some("you"),
            None
        ]
    );
    assert_eq!(chunks.iter().filter(|chunk| chunk.done).count(), 1);
    let last = chunks.last().expect("closing chunk");
    assert!(last.done);
    assert_eq!(last.finish_reason.as_deref(), Some("stop"));
    assert_eq!(last.usage, Some(Usage::new(2, 7)));
}

fn envelope(model: &str, contents: Vec<&str>) -> ChatCompletionsRequest {
    ChatCompletionsRequest {
        model: model.to_owned(),
        messages: contents
            .into_iter()
            .map(|content| OpenAiMessage {
                role: MessageRole::User,
                content: content.to_owned(),
            })
            .collect(),
        max_tokens: None,
        temperature: None,
        top_p: None,
        stream: false,
        user: None,
    }
}

#[test]
fn admission_authenticates_before_it_validates() {
    let policy = RatePolicy {
        requests_per_minute: 1,
        tokens_per_minute: 1_000,
        tokens_per_day: 1_000,
    };
    let registry = ApiKeyRegistry::new(vec!["dev-key".to_owned()], policy);
    let error = admit_request(&registry, None, envelope("", vec![])).expect_err("no key");
    assert_eq!(error.status_code(), 401);
    let error =
        admit_request(&registry, Some("dev-key"), envelope("", vec![])).expect_err("no model");
    assert_eq!(error.status_code(), 400);
    assert_eq!(error.error_type(), "invalid_request_error");
    assert_eq!(error.message(), "model is required");
    let (context, request) =
        admit_request(&registry, Some("dev-key"), envelope("mock-1", vec!["hello there"]))
            .expect("admitted");
    assert_eq!(request.user_id, "key_dev-key");
    assert_eq!(context.api_key, "dev-key");

    let mut limiter = RateLimiter::in_memory();
    let charged = charge_request(&mut limiter, &context, &request, 60).expect("within quota");
    assert_eq!(charged.estimated_tokens, 258);
    assert_eq!(charged.fingerprint, fingerprint_for(&request));
    assert_eq!(charged.rate_snapshot.remaining_requests_per_minute, 0);
    assert_eq!(charged.rate_snapshot.remaining_tokens_per_minute, 742);
    let rejected = charge_request(&mut limiter, &context, &request, 61).expect_err("over quota");
    assert_eq!(rejected.status_code(), 429);
    assert_eq!(rejected.error_type(), "rate_limit_error");
    assert_eq!(rejected.message(), "requests per minute quota exceeded");
    match rejected {
        AppError::RateLimited { headers, .. } => {
            assert_eq!(headers.len(), 8);
            assert_eq!(
                headers[1],
                (
                    "x-ratelimit-remaining-requests-minute".to_owned(),
                    "0".to_owned()
                )
            );
        }
        _ => panic!("a quota rejection"),
    }
    assert_eq!(limiter.usage_of("dev-key").expect("known").tokens_in_minute, 258);
}

fn kinds(events: &[StreamEvent]) -> Vec<String> {
    events
        .iter()
        .map(|event| match event {
            StreamEvent::Chunk(chunk) => {
                let choice = &chunk.choices[0];
                if choice.delta.role.is_some() {
                    "role".to_owned()
                } else if let Some(content) = &choice.delta.content {
                    format!("delta:{content}")
                } else {
                    format!("finish:{}", choice.finish_reason.clone().unwrap_or_default())
                }
            }
            StreamEvent::Failure(message) => format!("error:{message}"),
            StreamEvent::Done => "[DONE]".to_owned(),
        })
        .collect()
}

#[test]
fn streamed_answer_is_role_deltas_finish_done() {
    let mut encoder = StreamEncoder::new();
    let mut seen = vec![];
    let first = encoder.on_item(Ok(chunk(Some("hello "), None, false)), "id", 1, "m");
    assert!(first.usage.is_none());
    seen.extend(kinds(&first.events));
    let empty = encoder.on_item(Ok(chunk(Some(""), None, false)), "id", 1, "m");
    seen.extend(kinds(&empty.events));
    let mut closing = chunk(Some("world"), None, true);
    closing.usage = Some(Usage::new(3, 2));
    let last = encoder.on_item(Ok(closing), "id", 1, "m");
    assert_eq!(last.usage, Some(Usage::new(3, 2)));
    seen.extend(kinds(&last.events));
    let after = encoder.on_item(Ok(chunk(Some("late"), None, false)), "id", 1, "m");
    assert!(after.events.is_empty());
    assert!(encoder.on_close().is_empty());
    assert_eq!(
        seen,
        vec!["role", "delta:hello ", "delta:world", "finish:stop", "[DONE]"]
    );
}

#[test]
fn stream_error_is_reported_inline_then_done() {
    let mut encoder = StreamEncoder::new();
    let emission = encoder.on_item(Err("backend unavailable: down".to_owned()), "id", 1, "m");
    assert_eq!(
        kinds(&emission.events),
        vec!["error:backend unavailable: down", "[DONE]"]
    );
    assert!(encoder.finished);
    let mut idle = StreamEncoder::new();
    assert_eq!(kinds(&idle.on_close()), vec!["[DONE]"]);
    let mut named = StreamEncoder::new();
    let emission = named.on_item(Ok(chunk(None, Some("length"), true)), "id", 1, "m");
    assert_eq!(kinds(&emission.events), vec!["role", "finish:length", "[DONE]"]);
}

#[test]
fn leader_forwards_chunks_and_stops_at_the_end() {
    let (item, stop) = leader_forward(Ok(chunk(Some("a"), None, false)));
    assert!(!stop);
    assert_eq!(item.expect("chunk").delta.as_deref(), Some("a"));
    let (item, stop) = leader_forward(Ok(chunk(None, Some("stop"), true)));
    assert!(stop);
    assert!(item.expect("chunk").done);
    let (item, stop) = leader_forward(Err(BackendError::Unavailable("gone".to_owned())));
    assert!(stop);
    assert_eq!(item.expect_err("error"), "backend unavailable: gone");
    let id = new_response_id();
    assert!(id.starts_with("chatcmpl-"));
    assert_eq!(id.chars().count(), 45);
    assert_ne!(id, new_response_id());
    assert_eq!(response_id_from("abc"), "chatcmpl-abc");
    assert_eq!(response_id_from(""), "chatcmpl-");
    for (position, c) in id.chars().skip(9).enumerate() {
        if [8, 13, 18, 23].contains(&position) {
            assert_eq!(c, '-');
        } else {
            assert!(c.is_ascii_digit() || ('a'..='f').contains(&c));
        }
    }
}

#[test]
fn failure_accounting_never_overflows() {
    let mut router = BackendRouter::new(1);
    router.mark_failure(0, 1, u64::MAX - 5);
    router.mark_failure(0, 1, u64::MAX - 5);
    assert_eq!(router.health(0).circuit_open_until, None);
    router.mark_failure(0, 1, u64::MAX - 5);
    assert_eq!(router.health(0).circuit_open_until, Some(u64::MAX));
    assert_eq!(router.health(0).consecutive_failures, 3);
    assert!(router.select_endpoint(u64::MAX - 1).is_err());
    assert_eq!(router.select_endpoint(u64::MAX).expect("cooldown over"), 0);
}

#[test]
fn dispatched_batches_hold_one_class_within_the_limit() {
    let config = BatchConfig::from_settings(None, Some(2), Some(10));
    let mut assembler: BatchAssembler<u32> = BatchAssembler::new(config);
    for ticket in 0..5u32 {
        let model = if ticket % 2 == 0 { "a" } else { "b" };
        assembler.offer(BatchItem::new(request(model, "x", None), ticket), 0);
    }
    let mut dispatched = vec![];
    for now in [100u64, 100, 100, 110] {
        match assembler.next_step(now) {
            BatchStep::Dispatch(items) => {
                assert!(!items.is_empty() && items.len() <= 2);
                assert!(items.iter().all(|item| item.class.matches(&items[0].class)));
                dispatched.push(tickets(&items));
            }
            BatchStep::AwaitMore { timeout_ms } => assert_eq!(timeout_ms, 10),
            BatchStep::AwaitFirst => panic!("something is deferred or in assembly"),
        }
    }
    assert_eq!(dispatched, vec![vec![0, 2], vec![1, 3], vec![4]]);
    assert!(matches!(assembler.next_step(200), BatchStep::AwaitFirst));
}

#[test]
fn a_due_batch_goes_out_as_it_is() {
    let config = BatchConfig::from_settings(None, Some(4), Some(0));
    let mut assembler: BatchAssembler<u32> = BatchAssembler::new(config);
    assembler.offer(BatchItem::new(request("a", "x", None), 1), 5);
    assembler.offer(BatchItem::new(request("b", "x", None), 2), 5);
    assembler.offer(BatchItem::new(request("b", "y", None), 3), 5);
    for expected in [1u32, 2, 3] {
        match assembler.next_step(5) {
            BatchStep::Dispatch(items) => assert_eq!(tickets(&items), vec![expected]),
            _ => panic!("no time is left to wait or to fill"),
        }
    }
    assert!(matches!(assembler.next_step(5), BatchStep::AwaitFirst));
}
