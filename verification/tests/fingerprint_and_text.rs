use rust_llm_inference_gateway::auth::{redact_key, ApiKeyRegistry, RatePolicy};
use rust_llm_inference_gateway::errors::AppError;
use rust_llm_inference_gateway::models::{
    GenerationParams, MessageRole, NormalizedChatRequest, NormalizedMessage,
};
use rust_llm_inference_gateway::scheduler::{
    canonical_payload, fingerprint_for, nibble_to_hex, to_hex,
};
use rust_llm_inference_gateway::text::{
    char_is_whitespace, count_words, str_is_blank, trim, u64_to_decimal,
};

fn message(role: MessageRole, content: &str) -> NormalizedMessage {
    NormalizedMessage {
        role,
        content: content.to_owned(),
    }
}

fn request(messages: Vec<NormalizedMessage>) -> NormalizedChatRequest {
    NormalizedChatRequest {
        request_id: "req_1".to_owned(),
        user_id: "user_a".to_owned(),
        model: "m".to_owned(),
        messages,
        generation: GenerationParams {
            max_tokens: None,
            temperature: None,
            top_p: None,
        },
        stream: false,
    }
}

#[test]
fn fingerprint_is_stable_for_same_request_shape() {
    let request = NormalizedChatRequest {
        request_id: "req_1".to_owned(),
        user_id: "user_a".to_owned(),
        model: "gpt-test".to_owned(),
        messages: vec![NormalizedMessage {
            role: MessageRole::User,
            content: "hello".to_owned(),
        }],
        generation: GenerationParams {
            max_tokens: Some(100),
            temperature: Some("0.7000".to_owned()),
            top_p: Some("1.0000".to_owned()),
        },
        stream: false,
    };

    let left = fingerprint_for(&request);
    let right = fingerprint_for(&request);
    assert_eq!(left, right);
    assert_eq!(
        canonical_payload(&request),
        "gpt-test|100|0.7000|1.0000|user:hello"
    );
    assert_eq!(
        left.as_str(),
        "16ed34f234c3dcc60c1693b0b77efd15c1cc258a83cf138b3ab7ed8a9374a870"
    );
}

#[test]
fn fingerprint_ignores_identity_and_stream_flag() {
    let mut first = request(vec![message(MessageRole::User, "hello")]);
    first.model = "mock".to_owned();
    first.generation.max_tokens = Some(20);
    let mut second = request(vec![message(MessageRole::User, "hello")]);
    second.model = "mock".to_owned();
    second.generation.max_tokens = Some(20);
    second.request_id = "req_other".to_owned();
    second.user_id = "user_b".to_owned();
    second.stream = true;
    assert_eq!(fingerprint_for(&first), fingerprint_for(&second));
    assert_eq!(
        fingerprint_for(&first).as_str(),
        "851c7648805ecf898429a72a06aff8408e16254de2d2ac19787872c8bafe1363"
    );
    let text = fingerprint_for(&second);
    assert_eq!(text.as_str().chars().count(), 64);
    assert!(text
        .as_str()
        .chars()
        .all(|c| c.is_ascii_digit() || ('a'..='f').contains(&c)));
}

#[test]
fn fingerprint_depends_on_message_order() {
    let forward = request(vec![
        message(MessageRole::System, "a"),
        message(MessageRole::User, "b"),
    ]);
    let backward = request(vec![
        message(MessageRole::User, "b"),
        message(MessageRole::System, "a"),
    ]);
    assert_eq!(canonical_payload(&forward), "m|0|none|none|system:a|user:b");
    assert_eq!(
        fingerprint_for(&forward).as_str(),
        "b8e9a214ca47c7812fbef22a8e362a34dd826dab71f73014263f17d08022b894"
    );
    assert_eq!(
        fingerprint_for(&backward).as_str(),
        "6572bada5146a24eb66985d00df2154d749e67f5bb2bed0732d08014d795e97e"
    );
}

#[test]
fn canonical_text_names_every_role() {
    let all = request(vec![
        message(MessageRole::System, "s"),
        message(MessageRole::User, "u"),
        message(MessageRole::Assistant, "a"),
        message(MessageRole::Tool, "t"),
    ]);
    assert_eq!(
        canonical_payload(&all),
        "m|0|none|none|system:s|user:u|assistant:a|tool:t"
    );
}

#[test]
fn hex_is_lower_case_two_digits_per_byte() {
    assert_eq!(to_hex(&[]), "");
    assert_eq!(to_hex(&[0x00, 0x0a, 0xab, 0xff, 0x10]), "000aabff10");
    assert_eq!(nibble_to_hex(9), '9');
    assert_eq!(nibble_to_hex(10), 'a');
    assert_eq!(nibble_to_hex(15), 'f');
    assert_eq!(nibble_to_hex(16), '0');
}

#[test]
fn whitespace_follows_std() {
    for code in 0u32..0x3100 {
        if let Some(c) = char::from_u32(code) {
            assert_eq!(char_is_whitespace(c), c.is_whitespace());
        }
    }
}

#[test]
fn trim_and_blank_follow_std() {
    for text in ["", " ", "a", "  a b  ", "\t\u{3000}x\u{85}", "x \n", "\u{a0}"] {
        assert_eq!(trim(text), text.trim());
        assert_eq!(str_is_blank(text), text.trim().is_empty());
        assert_eq!(count_words(text), text.split_whitespace().count() as u64);
    }
    assert_eq!(count_words("hello world"), 2);
    assert_eq!(count_words(" a  b\tc\n"), 3);
}

#[test]
fn decimal_rendering() {
    assert_eq!(u64_to_decimal(0), "0");
    assert_eq!(u64_to_decimal(7), "7");
    assert_eq!(u64_to_decimal(10), "10");
    assert_eq!(u64_to_decimal(120_000), "120000");
    assert_eq!(u64_to_decimal(u64::MAX), "18446744073709551615");
}

fn registry() -> ApiKeyRegistry {
    ApiKeyRegistry::new(
        vec!["dev-key".to_owned(), "a-much-longer-key".to_owned()],
        RatePolicy {
            requests_per_minute: 120,
            tokens_per_minute: 120_000,
            tokens_per_day: 2_000_000,
        },
    )
}

#[test]
fn returns_unauthorized_when_api_key_missing() {
    let error = registry().authenticate(None).expect_err("no header");
    assert_eq!(error.status_code(), 401);
    assert_eq!(error.error_type(), "authentication_error");
    assert_eq!(error.message(), "missing x-api-key header");
    let error = registry().authenticate(Some("   ")).expect_err("blank header");
    assert_eq!(error.message(), "missing x-api-key header");
}

#[test]
fn unknown_key_is_rejected() {
    let error = registry().authenticate(Some("nope")).expect_err("unknown key");
    assert!(matches!(error, AppError::Unauthorized(_)));
    assert_eq!(error.message(), "invalid api key");
}

#[test]
fn known_key_yields_context() {
    let context = registry().authenticate(Some("  dev-key ")).expect("known key");
    assert_eq!(context.api_key, "dev-key");
    assert_eq!(context.user_id, "key_dev-key");
    assert_eq!(context.policy.requests_per_minute, 120);
    let context = registry()
        .authenticate(Some("a-much-longer-key"))
        .expect("known key");
    assert_eq!(context.user_id, "key_a-much-l");
    assert_eq!(redact_key("12345678"), "12345678");
    assert_eq!(redact_key("123456789"), "12345678");
    assert_eq!(redact_key(""), "");
}

#[test]
fn errors_map_to_status_and_type() {
    let cases = vec![
        (AppError::BadRequest("a".to_owned()), 400, "invalid_request_error"),
        (AppError::Unauthorized("b".to_owned()), 401, "authentication_error"),
        (
            AppError::RateLimited {
                message: "c".to_owned(),
                headers: vec![],
            },
            429,
            "rate_limit_error",
        ),
        (AppError::Backend("d".to_owned()), 502, "backend_error"),
        (AppError::Internal("e".to_owned()), 500, "server_error"),
    ];
    let messages = ["a", "b", "c", "d", "e"];
    for ((error, status, kind), message) in cases.into_iter().zip(messages) {
        assert_eq!(error.status_code(), status);
        assert_eq!(error.error_type(), kind);
        assert_eq!(error.message(), message);
    }
}
