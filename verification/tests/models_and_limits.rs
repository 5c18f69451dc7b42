use rust_llm_inference_gateway::auth::RatePolicy;
use rust_llm_inference_gateway::limits::{
    check_usage, current_day_start, current_minute_start, empty_snapshot, estimate_request_tokens,
    interpret_shared_reply, plan_shared_check, plan_shared_reconcile, reconcile_usage,
    refresh_windows, snapshot_from_counts, KeyUsage, RateLimitError, RateLimiter,
};
use rust_llm_inference_gateway::models::{
    BackendChatResponse, ChatCompletionsChunk, ChatCompletionsRequest, ChatCompletionsResponse,
    request_id_from, GenerationParams, MessageRole, NormalizedChatRequest, NormalizedMessage,
    OpenAiMessage, Usage,
};

fn request_with(contents: Vec<&str>, max_tokens: Option<u32>) -> NormalizedChatRequest {
    NormalizedChatRequest {
        request_id: "req-1".to_owned(),
        user_id: "user-1".to_owned(),
        model: "mock".to_owned(),
        messages: contents
            .into_iter()
            .map(|content| NormalizedMessage {
                role: MessageRole::User,
                content: content.to_owned(),
            })
            .collect(),
        generation: GenerationParams {
            max_tokens,
            temperature: None,
            top_p: None,
        },
        stream: false,
    }
}

fn default_policy() -> RatePolicy {
    RatePolicy {
        requests_per_minute: 120,
        tokens_per_minute: 120_000,
        tokens_per_day: 2_000_000,
    }
}

#[test]
fn usage_total_is_computed() {
    let usage = Usage::new(11, 7);
    assert_eq!(usage.total_tokens, 18);
}

#[test]
fn usage_total_saturates() {
    let usage = Usage::new(u32::MAX, 7);
    assert_eq!(usage.prompt_tokens, u32::MAX);
    assert_eq!(usage.completion_tokens, 7);
    assert_eq!(usage.total_tokens, u32::MAX);
}

#[test]
fn normalization_rejects_empty_message_list() {
    let request = ChatCompletionsRequest {
        model: "gpt-test".to_owned(),
        messages: vec![],
        max_tokens: None,
        temperature: None,
        top_p: None,
        stream: false,
        user: None,
    };

    let error = request
        .into_normalized("user_123".to_owned())
        .expect_err("empty message list should fail");

    assert_eq!(error, "messages must not be empty");
}

#[test]
fn normalization_rejects_blank_model_first() {
    let request = ChatCompletionsRequest {
        model: " \t\n".to_owned(),
        messages: vec![],
        max_tokens: None,
        temperature: None,
        top_p: None,
        stream: false,
        user: None,
    };
    let error = request
        .into_normalized("user_123".to_owned())
        .expect_err("blank model should fail");
    assert_eq!(error, "model is required");
}

#[test]
fn normalization_keeps_fields_and_mints_request_id() {
    let envelope = || ChatCompletionsRequest {
        model: "mock-1".to_owned(),
        messages: vec![
            OpenAiMessage {
                role: MessageRole::System,
                content: "be brief".to_owned(),
            },
            OpenAiMessage {
                role: MessageRole::User,
                content: "hello".to_owned(),
            },
        ],
        max_tokens: Some(9),
        temperature: Some("0.7000".to_owned()),
        top_p: None,
        stream: true,
        user: Some("someone".to_owned()),
    };
    let first = envelope()
        .into_normalized("key_dev-key".to_owned())
        .expect("valid envelope");
    let second = envelope()
        .into_normalized("key_dev-key".to_owned())
        .expect("valid envelope");
    assert_eq!(first.user_id, "key_dev-key");
    assert_eq!(first.model, "mock-1");
    assert_eq!(first.messages.len(), 2);
    assert_eq!(first.messages[0].role, MessageRole::System);
    assert_eq!(first.messages[0].content, "be brief");
    assert_eq!(first.messages[1].role, MessageRole::User);
    assert_eq!(first.messages[1].content, "hello");
    assert_eq!(first.generation.max_tokens, Some(9));
    assert_eq!(first.generation.temperature, Some("0.7000".to_owned()));
    assert_eq!(first.generation.top_p, None);
    assert!(first.stream);
    assert!(first.request_id.starts_with("req_"));
    assert_eq!(first.request_id.chars().count(), 40);
    assert_ne!(first.request_id, second.request_id);
    for (position, c) in first.request_id.chars().skip(4).enumerate() {
        if [8, 13, 18, 23].contains(&position) {
            assert_eq!(c, '-');
        } else {
            assert!(c.is_ascii_digit() || ('a'..='f').contains(&c));
        }
    }
    assert_eq!(request_id_from("abc"), "req_abc");
}

#[test]
fn estimate_tokens_uses_prompt_and_max_tokens() {
    let request = NormalizedChatRequest {
        request_id: "req-1".to_owned(),
        user_id: "user-1".to_owned(),
        model: "mock".to_owned(),
        messages: vec![NormalizedMessage {
            role: MessageRole::User,
            content: "hello world".to_owned(),
        }],
        generation: GenerationParams {
            max_tokens: Some(20),
            temperature: None,
            top_p: None,
        },
        stream: false,
    };

    assert_eq!(estimate_request_tokens(&request), 22);
}

#[test]
fn estimate_defaults_to_256_completion_tokens() {
    let request = request_with(vec!["  one two\tthree  ", "", "   ", "four"], None);
    assert_eq!(estimate_request_tokens(&request), 4 + 256);
    let none = request_with(vec![], Some(0));
    assert_eq!(estimate_request_tokens(&none), 0);
}

#[test]
fn windows_are_aligned() {
    assert_eq!(current_minute_start(0), 0);
    assert_eq!(current_minute_start(59), 0);
    assert_eq!(current_minute_start(125), 120);
    assert_eq!(current_day_start(86_399), 0);
    assert_eq!(current_day_start(200_000), 172_800);
    let usage = KeyUsage::new(200_000);
    assert_eq!(usage.minute_started_at, 199_980);
    assert_eq!(usage.day_started_at, 172_800);
    assert_eq!(usage.requests_in_minute, 0);
}

#[test]
fn refresh_resets_only_stale_windows() {
    let mut usage = KeyUsage {
        minute_started_at: 120,
        day_started_at: 0,
        requests_in_minute: 3,
        tokens_in_minute: 30,
        tokens_in_day: 300,
    };
    refresh_windows(130, &mut usage);
    assert_eq!(usage.requests_in_minute, 3);
    assert_eq!(usage.tokens_in_minute, 30);
    refresh_windows(181, &mut usage);
    assert_eq!(usage.minute_started_at, 180);
    assert_eq!(usage.requests_in_minute, 0);
    assert_eq!(usage.tokens_in_minute, 0);
    assert_eq!(usage.tokens_in_day, 300);
    refresh_windows(86_400, &mut usage);
    assert_eq!(usage.day_started_at, 86_400);
    assert_eq!(usage.tokens_in_day, 0);
}

#[test]
fn admitted_request_bumps_all_three_counters() {
    let policy = RatePolicy {
        requests_per_minute: 10,
        tokens_per_minute: 1_000,
        tokens_per_day: 10_000,
    };
    let mut usage = KeyUsage::new(600);
    let snapshot = check_usage(&mut usage, &policy, 100, 601).expect("admitted");
    assert_eq!(usage.requests_in_minute, 1);
    assert_eq!(usage.tokens_in_minute, 100);
    assert_eq!(usage.tokens_in_day, 100);
    assert_eq!(snapshot.limit_requests_per_minute, 10);
    assert_eq!(snapshot.remaining_requests_per_minute, 9);
    assert_eq!(snapshot.remaining_tokens_per_minute, 900);
    assert_eq!(snapshot.remaining_tokens_per_day, 9_900);
    assert_eq!(snapshot.reset_requests_per_minute, 660);
    assert_eq!(snapshot.reset_tokens_per_day, 86_400);
}

#[test]
fn rejection_names_first_exceeded_quota_and_keeps_counters() {
    let policy = RatePolicy {
        requests_per_minute: 1,
        tokens_per_minute: 50,
        tokens_per_day: 40,
    };
    let mut usage = KeyUsage::new(0);
    let error = check_usage(&mut usage, &policy, 60, 0).expect_err("too many tokens");
    assert!(matches!(error, RateLimitError::TokensPerMinute(_)));
    assert_eq!(error.message(), "tokens per minute quota exceeded");
    assert_eq!(usage, KeyUsage::new(0));
    let error = check_usage(&mut usage, &policy, 45, 0).expect_err("too many tokens a day");
    assert!(matches!(error, RateLimitError::TokensPerDay(_)));
    assert_eq!(error.message(), "tokens per day quota exceeded");
    assert_eq!(error.snapshot().remaining_tokens_per_day, 40);
    check_usage(&mut usage, &policy, 10, 0).expect("fits");
    let error = check_usage(&mut usage, &policy, 1, 0).expect_err("second request");
    assert!(matches!(error, RateLimitError::RequestsPerMinute(_)));
    assert_eq!(error.message(), "requests per minute quota exceeded");
    assert_eq!(error.snapshot().remaining_requests_per_minute, 0);
    assert_eq!(usage.requests_in_minute, 1);
    assert_eq!(usage.tokens_in_minute, 10);
}

#[test]
fn request_121_within_a_minute_is_rejected() {
    let mut limiter = RateLimiter::in_memory();
    let policy = default_policy();
    for _ in 0..120 {
        limiter
            .check_and_consume("dev-key", &policy, 1, 1_000)
            .expect("within quota");
    }
    let error = limiter
        .check_and_consume("dev-key", &policy, 1, 1_019)
        .expect_err("over quota");
    assert!(matches!(error, RateLimitError::RequestsPerMinute(_)));
    let pairs = error.snapshot().to_header_pairs();
    assert_eq!(
        pairs[1],
        (
            "x-ratelimit-remaining-requests-minute".to_owned(),
            "0".to_owned()
        )
    );
    assert_eq!(limiter.usage_of("dev-key").expect("known").requests_in_minute, 120);
    limiter
        .check_and_consume("other-key", &policy, 1, 1_019)
        .expect("another key has its own counters");
    limiter
        .check_and_consume("dev-key", &policy, 1, 1_020)
        .expect("next minute");
}

#[test]
fn limits_consume_and_reconcile() {
    let mut limiter = RateLimiter::in_memory();
    let policy = RatePolicy {
        requests_per_minute: 10,
        tokens_per_minute: 1_000,
        tokens_per_day: 10_000,
    };

    limiter
        .check_and_consume("key-1", &policy, 100, 1_700_000_000)
        .expect("initial consume should pass");

    limiter.reconcile_tokens("key-1", 100, 70, 1_700_000_001);
    let snapshot = limiter
        .check_and_consume("key-1", &policy, 70, 1_700_000_002)
        .expect("second consume should pass");

    assert!(snapshot.remaining_tokens_per_minute <= 860);
    assert_eq!(snapshot.remaining_tokens_per_minute, 860);
}

#[test]
fn reconcile_corrects_both_token_counters() {
    let mut limiter = RateLimiter::in_memory();
    let policy = default_policy();
    limiter
        .check_and_consume("k", &policy, 100, 60)
        .expect("admitted");
    limiter.reconcile_tokens("k", 100, 70, 61);
    let usage = limiter.usage_of("k").expect("known");
    assert_eq!(usage.tokens_in_minute, 70);
    assert_eq!(usage.tokens_in_day, 70);
    assert_eq!(usage.requests_in_minute, 1);
    limiter.reconcile_tokens("k", 10, 500, 62);
    assert_eq!(limiter.usage_of("k").expect("known").tokens_in_minute, 560);
    limiter.reconcile_tokens("k", 1_000, 0, 63);
    assert_eq!(limiter.usage_of("k").expect("known").tokens_in_minute, 0);
    limiter.reconcile_tokens("unknown", 1, 2, 63);
    assert!(limiter.usage_of("unknown").is_none());
    limiter
        .check_and_consume("k", &policy, 40, 64)
        .expect("admitted");
    limiter.reconcile_tokens("k", 40, 40, 125);
    let usage = limiter.usage_of("k").expect("known");
    assert_eq!(usage.minute_started_at, 120);
    assert_eq!(usage.requests_in_minute, 0);
    assert_eq!(usage.tokens_in_minute, 0);
    assert_eq!(usage.tokens_in_day, 40);
    let mut usage = KeyUsage::new(0);
    reconcile_usage(&mut usage, 0, u64::MAX, 0);
    reconcile_usage(&mut usage, 0, 5, 0);
    assert_eq!(usage.tokens_in_day, u64::MAX);
}

#[test]
fn snapshot_headers_are_decimal() {
    let policy = default_policy();
    let snapshot = snapshot_from_counts(&policy, 20, 1_000, 2_000_001, 125);
    assert_eq!(snapshot.remaining_requests_per_minute, 100);
    assert_eq!(snapshot.remaining_tokens_per_minute, 119_000);
    assert_eq!(snapshot.remaining_tokens_per_day, 0);
    let pairs = snapshot.to_header_pairs();
    let expected = vec![
        ("x-ratelimit-limit-requests-minute", "120"),
        ("x-ratelimit-remaining-requests-minute", "100"),
        ("x-ratelimit-limit-tokens-minute", "120000"),
        ("x-ratelimit-remaining-tokens-minute", "119000"),
        ("x-ratelimit-limit-tokens-day", "2000000"),
        ("x-ratelimit-remaining-tokens-day", "0"),
        ("x-ratelimit-reset-requests-minute", "180"),
        ("x-ratelimit-reset-tokens-day", "86400"),
    ];
    assert_eq!(pairs.len(), 8);
    for (pair, (name, value)) in pairs.iter().zip(expected) {
        assert_eq!(pair.0, name);
        assert_eq!(pair.1, value);
    }
    let huge = snapshot_from_counts(&policy, u64::MAX, 0, 0, 0);
    assert_eq!(huge.remaining_requests_per_minute, 0);
    assert_eq!(empty_snapshot(&policy, 0).remaining_requests_per_minute, 120);
}

#[test]
fn shared_store_check_is_planned_and_read() {
    let policy = default_policy();
    let call = plan_shared_check("gateway", "dev-key", &policy, 42, 125);
    assert_eq!(call.req_key, "gateway:rl:dev-key:m:120:req");
    assert_eq!(call.tok_min_key, "gateway:rl:dev-key:m:120:tok");
    assert_eq!(call.tok_day_key, "gateway:rl:dev-key:d:0:tok");
    assert_eq!(call.args, vec![1, 42, 120, 120_000, 2_000_000, 55, 55, 86_275]);

    let admitted =
        interpret_shared_reply(&policy, Some(&vec![1, 3, 42, 42]), 42, 125).expect("admitted");
    assert_eq!(admitted.remaining_requests_per_minute, 117);
    assert_eq!(admitted.remaining_tokens_per_minute, 119_958);
    let denied = interpret_shared_reply(&policy, Some(&vec![0, 121, 42, 42]), 42, 125)
        .expect_err("requests over limit");
    assert!(matches!(denied, RateLimitError::RequestsPerMinute(_)));
    assert_eq!(denied.snapshot().remaining_requests_per_minute, 0);
    assert_eq!(denied.snapshot().remaining_tokens_per_minute, 120_000);
    assert_eq!(denied.snapshot().remaining_tokens_per_day, 2_000_000);
    let denied = interpret_shared_reply(&policy, Some(&vec![0, 5, 120_001, 42]), 42, 125)
        .expect_err("tokens over limit");
    assert!(matches!(denied, RateLimitError::TokensPerMinute(_)));
    assert_eq!(denied.snapshot().remaining_requests_per_minute, 116);
    assert_eq!(denied.snapshot().remaining_tokens_per_minute, 41);
    let denied = interpret_shared_reply(&policy, Some(&vec![0, 5, 5, -1]), 42, 125)
        .expect_err("daily is what is left");
    assert!(matches!(denied, RateLimitError::TokensPerDay(_)));
    assert_eq!(denied.snapshot().remaining_tokens_per_day, 2_000_000);
    let open = interpret_shared_reply(&policy, None, 42, 125).expect("fails open");
    assert_eq!(open, empty_snapshot(&policy, 125));
    let odd = interpret_shared_reply(&policy, Some(&vec![0, 0, 0]), 42, 125).expect("fails open");
    assert_eq!(odd, empty_snapshot(&policy, 125));
}

#[test]
fn shared_store_rejection_matches_in_process_rejection() {
    let policy = RatePolicy {
        requests_per_minute: 10,
        tokens_per_minute: 100,
        tokens_per_day: 1_000,
    };
    let mut usage = KeyUsage::new(125);
    check_usage(&mut usage, &policy, 80, 125).expect("fits");
    let in_process = check_usage(&mut usage, &policy, 30, 126).expect_err("over the minute");
    let shared = interpret_shared_reply(&policy, Some(&vec![0, 2, 110, 110]), 30, 126)
        .expect_err("over the minute");
    assert_eq!(shared, in_process);
    assert_eq!(shared.snapshot().remaining_tokens_per_minute, 20);
    assert_eq!(shared.snapshot().remaining_requests_per_minute, 9);
}

#[test]
fn shared_store_reconcile_is_planned() {
    assert!(plan_shared_reconcile("gw", "k", 5, 5, 0).is_none());
    let up = plan_shared_reconcile("gw", "k", 5, 9, 61).expect("differs");
    assert!(up.increase);
    assert_eq!(up.amount, 4);
    assert_eq!(up.tok_min_key, "gw:rl:k:m:60:tok");
    assert_eq!(up.tok_day_key, "gw:rl:k:d:0:tok");
    assert_eq!(up.minute_ttl, 59);
    assert_eq!(up.day_ttl, 86_339);
    let down = plan_shared_reconcile("gw", "k", 9, 5, 61).expect("differs");
    assert!(!down.increase);
    assert_eq!(down.amount, 4);
}

#[test]
fn completion_envelope_wraps_backend_answer() {
    let response = ChatCompletionsResponse::from_backend(
        "chatcmpl-1".to_owned(),
        1_700_000_000,
        "mock-1".to_owned(),
        BackendChatResponse {
            content: "hi there".to_owned(),
            finish_reason: "stop".to_owned(),
            usage: Usage::new(2, 3),
        },
    );
    assert_eq!(response.id, "chatcmpl-1");
    assert_eq!(response.object, "chat.completion");
    assert_eq!(response.created, 1_700_000_000);
    assert_eq!(response.model, "mock-1");
    assert_eq!(response.choices.len(), 1);
    assert_eq!(response.choices[0].index, 0);
    assert_eq!(response.choices[0].message.role, "assistant");
    assert_eq!(response.choices[0].message.content, "hi there");
    assert_eq!(response.choices[0].finish_reason, "stop");
    assert_eq!(response.usage.total_tokens, 5);
    assert_eq!(
        response.usage.total_tokens,
        response.usage.prompt_tokens + response.usage.completion_tokens
    );
}

#[test]
fn stream_chunks_have_one_choice_each() {
    let role = ChatCompletionsChunk::role("id-1", 7, "m");
    assert_eq!(role.object, "chat.completion.chunk");
    assert_eq!(role.id, "id-1");
    assert_eq!(role.created, 7);
    assert_eq!(role.model, "m");
    assert_eq!(role.choices.len(), 1);
    assert_eq!(role.choices[0].delta.role, Some("assistant"));
    assert_eq!(role.choices[0].delta.content, None);
    assert_eq!(role.choices[0].finish_reason, None);
    let delta = ChatCompletionsChunk::delta("id-1", 7, "m", "word ".to_owned());
    assert_eq!(delta.choices[0].delta.role, None);
    assert_eq!(delta.choices[0].delta.content, Some("word ".to_owned()));
    assert_eq!(delta.choices[0].finish_reason, None);
    let finish = ChatCompletionsChunk::finish("id-1", 7, "m", "length".to_owned());
    assert_eq!(finish.choices[0].index, 0);
    assert_eq!(finish.choices[0].delta.role, None);
    assert_eq!(finish.choices[0].delta.content, None);
    assert_eq!(finish.choices[0].finish_reason, Some("length".to_owned()));
}
