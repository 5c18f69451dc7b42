//! Request fingerprints: a SHA-256 digest, in lower-case hex, of the fields
//! that determine a response.

use sha2::{Digest, Sha256};
use vstd::prelude::*;
use vstd::string::*;
use vstd::utf8::encode_utf8;
use crate::models::{MessageRole, NormalizedChatRequest, NormalizedMessage};
use crate::text::{decimal, is_lower_hex, u64_to_decimal};

verus! {

#[derive(Debug, PartialEq, Eq, Hash)]
pub struct RequestFingerprint(String);

impl View for RequestFingerprint {
    type V = Seq<char>;

    closed spec fn view(&self) -> Seq<char> {
        self.0@
    }
}

impl Clone for RequestFingerprint {
    fn clone(&self) -> (r: Self)
        ensures
            r@ == self@,
    {
        RequestFingerprint(self.0.clone())
    }
}

impl RequestFingerprint {
    pub fn as_str(&self) -> (text: &str)
        ensures
            text@ == self@,
    {
        self.0.as_str()
    }
}

/// The SHA-256 digest of a byte string.
pub uninterp spec fn sha256_digest(data: Seq<u8>) -> Seq<u8>;

/// Computes SHA-256 with `sha2::Sha256::digest` (the one-shot form of the
/// `Digest` trait). The digest is a function of the input bytes alone and is
/// 32 bytes long.
#[verifier::external_body]
fn sha256(data: &[u8]) -> (digest: Vec<u8>)
    ensures
        digest@ == sha256_digest(data@),
        digest@.len() == 32,
{
    Sha256::digest(data).to_vec()
}

/// Lower-case name of a role.
pub open spec fn role_text(role: MessageRole) -> Seq<char> {
    match role {
        MessageRole::System => "system"@,
        MessageRole::User => "user"@,
        MessageRole::Assistant => "assistant"@,
        MessageRole::Tool => "tool"@,
    }
}

/// The text of an optional sampling number, `none` where it is absent.
pub open spec fn optional_text(value: Option<String>) -> Seq<char> {
    match value {
        Some(text) => text@,
        None => "none"@,
    }
}

/// What one message adds to the canonical text.
pub open spec fn message_part(message: NormalizedMessage) -> Seq<char> {
    "|"@ + role_text(message.role) + ":"@ + message.content@
}

/// What the first `n` messages add to the canonical text, in order.
pub open spec fn messages_part(messages: Seq<NormalizedMessage>, n: int) -> Seq<char>
    decreases n,
{
    if n <= 0 {
        Seq::<char>::empty()
    } else {
        messages_part(messages, n - 1) + message_part(messages[n - 1])
    }
}

/// `max_tokens`, or zero where none was asked for.
pub open spec fn max_tokens_or_zero(max_tokens: Option<u32>) -> nat {
    match max_tokens {
        Some(n) => n as nat,
        None => 0,
    }
}

/// The canonical text of a request: model, `max_tokens` or 0, temperature,
/// `top_p`, then every message. Request id, user id and the stream flag take
/// no part in it.
pub open spec fn canonical(request: &NormalizedChatRequest) -> Seq<char> {
    request.model@ + "|"@ + decimal(max_tokens_or_zero(request.generation.max_tokens)) + "|"@
        + optional_text(request.generation.temperature) + "|"@ + optional_text(
        request.generation.top_p,
    ) + messages_part(request.messages@, request.messages@.len() as int)
}

/// The lower-case hex digit of a value below 16; `0` for any other value.
pub open spec fn hex_digit(value: u8) -> char {
    if value == 0 { '0' }
    else if value == 1 { '1' }
    else if value == 2 { '2' }
    else if value == 3 { '3' }
    else if value == 4 { '4' }
    else if value == 5 { '5' }
    else if value == 6 { '6' }
    else if value == 7 { '7' }
    else if value == 8 { '8' }
    else if value == 9 { '9' }
    else if value == 10 { 'a' }
    else if value == 11 { 'b' }
    else if value == 12 { 'c' }
    else if value == 13 { 'd' }
    else if value == 14 { 'e' }
    else if value == 15 { 'f' }
    else { '0' }
}

/// Lower-case hex of the first `n` bytes, two digits per byte.
pub open spec fn hex_prefix(bytes: Seq<u8>, n: int) -> Seq<char>
    decreases n,
{
    if n <= 0 {
        Seq::<char>::empty()
    } else {
        hex_prefix(bytes, n - 1).push(hex_digit(bytes[n - 1] / 16)).push(
            hex_digit(bytes[n - 1] % 16),
        )
    }
}

/// Lower-case hex of a byte string.
pub open spec fn hex(bytes: Seq<u8>) -> Seq<char> {
    hex_prefix(bytes, bytes.len() as int)
}

/// The fingerprint of a request.
pub open spec fn fingerprint_of(request: &NormalizedChatRequest) -> Seq<char> {
    hex(sha256_digest(encode_utf8(canonical(request))))
}

pub fn nibble_to_hex(value: u8) -> (digit: char)
    ensures
        digit == hex_digit(value),
{
    if value == 0 { '0' }
    else if value == 1 { '1' }
    else if value == 2 { '2' }
    else if value == 3 { '3' }
    else if value == 4 { '4' }
    else if value == 5 { '5' }
    else if value == 6 { '6' }
    else if value == 7 { '7' }
    else if value == 8 { '8' }
    else if value == 9 { '9' }
    else if value == 10 { 'a' }
    else if value == 11 { 'b' }
    else if value == 12 { 'c' }
    else if value == 13 { 'd' }
    else if value == 14 { 'e' }
    else if value == 15 { 'f' }
    else { '0' }
}

/// Hex text has two characters per byte, each a lower-case hex digit.
pub proof fn lemma_hex_shape(bytes: Seq<u8>, n: int)
    requires
        0 <= n <= bytes.len(),
    ensures
        hex_prefix(bytes, n).len() == 2 * n,
        forall|i: int| 0 <= i < 2 * n ==> is_lower_hex(#[trigger] hex_prefix(bytes, n)[i]),
    decreases n,
{
    if n > 0 {
        lemma_hex_shape(bytes, n - 1);
    }
}

pub fn to_hex(bytes: &[u8]) -> (encoded: String)
    ensures
        encoded@ == hex(bytes@),
        encoded@.len() == 2 * bytes@.len(),
        forall|i: int| 0 <= i < encoded@.len() ==> is_lower_hex(#[trigger] encoded@[i]),
{
    proof {
        lemma_hex_shape(bytes@, bytes@.len() as int);
    }
    let mut encoded = String::new();
    let mut i: usize = 0;
    while i < bytes.len()
        invariant
            i <= bytes@.len(),
            encoded@ == hex_prefix(bytes@, i as int),
        decreases bytes@.len() - i,
    {
        let byte: u8 = bytes[i];
        encoded.push(nibble_to_hex(byte / 16));
        encoded.push(nibble_to_hex(byte % 16));
        i += 1;
    }
    encoded
}

pub fn role_name(role: &MessageRole) -> (name: &'static str)
    ensures
        name@ == role_text(*role),
{
    match role {
        MessageRole::System => "system",
        MessageRole::User => "user",
        MessageRole::Assistant => "assistant",
        MessageRole::Tool => "tool",
    }
}

/// The text of an optional sampling number, `none` where it is absent.
pub fn optional_number_text(value: &Option<String>) -> (text: String)
    ensures
        text@ == optional_text(*value),
{
    match value {
        Some(text) => text.clone(),
        None => "none".to_owned(),
    }
}

pub fn append_message(buffer: &mut String, message: &NormalizedMessage)
    ensures
        final(buffer)@ == old(buffer)@ + message_part(*message),
{
    buffer.append("|");
    buffer.append(role_name(&message.role));
    buffer.append(":");
    buffer.append(message.content.as_str());
    assert(buffer@ =~= old(buffer)@ + message_part(*message));
}

pub fn canonical_payload(request: &NormalizedChatRequest) -> (payload: String)
    ensures
        payload@ == canonical(request),
{
    let mut payload = String::new();
    payload.append(request.model.as_str());
    payload.append("|");
    let max_tokens: u64 = match request.generation.max_tokens {
        Some(n) => n as u64,
        None => 0,
    };
    payload.append(u64_to_decimal(max_tokens).as_str());
    payload.append("|");
    payload.append(optional_number_text(&request.generation.temperature).as_str());
    payload.append("|");
    payload.append(optional_number_text(&request.generation.top_p).as_str());
    let ghost head = payload@;
    assert(head =~= request.model@ + "|"@ + decimal(
        max_tokens_or_zero(request.generation.max_tokens),
    ) + "|"@ + optional_text(request.generation.temperature) + "|"@ + optional_text(
        request.generation.top_p,
    ));
    let mut i: usize = 0;
    while i < request.messages.len()
        invariant
            i <= request.messages@.len(),
            payload@ == head + messages_part(request.messages@, i as int),
        decreases request.messages@.len() - i,
    {
        append_message(&mut payload, &request.messages[i]);
        assert(payload@ =~= head + messages_part(request.messages@, i + 1));
        i += 1;
    }
    payload
}

/// Derives the fingerprint of a request from its canonical text: 64
/// lower-case hex digits.
pub fn fingerprint_for(request: &NormalizedChatRequest) -> (fingerprint: RequestFingerprint)
    ensures
        fingerprint@ == fingerprint_of(request),
        fingerprint@.len() == 64,
        forall|i: int| 0 <= i < 64 ==> is_lower_hex(#[trigger] fingerprint@[i]),
{
    let canonical = canonical_payload(request);
    let digest = sha256(canonical.as_str().as_bytes());
    RequestFingerprint(to_hex(digest.as_slice()))
}

/// Two requests with the same model, generation parameters and messages
/// (role and content, in order).
pub open spec fn same_content(a: &NormalizedChatRequest, b: &NormalizedChatRequest) -> bool {
    &&& a.model@ == b.model@
    &&& a.generation.max_tokens == b.generation.max_tokens
    &&& optional_text(a.generation.temperature) == optional_text(b.generation.temperature)
    &&& optional_text(a.generation.top_p) == optional_text(b.generation.top_p)
    &&& a.messages@.len() == b.messages@.len()
    &&& forall|i: int|
        0 <= i < a.messages@.len() ==> (#[trigger] a.messages@[i]).role == b.messages@[i].role
            && a.messages@[i].content@ == b.messages@[i].content@
}

proof fn lemma_messages_part_same(a: Seq<NormalizedMessage>, b: Seq<NormalizedMessage>, n: int)
    requires
        n <= a.len(),
        n <= b.len(),
        forall|i: int|
            0 <= i < n ==> (#[trigger] a[i]).role == b[i].role && a[i].content@ == b[i].content@,
    ensures
        messages_part(a, n) == messages_part(b, n),
    decreases n,
{
    if n > 0 {
        lemma_messages_part_same(a, b, n - 1);
        assert(a[n - 1].role == b[n - 1].role);
    }
}

/// Requests that differ only in request id, user id or the stream flag have
/// the same fingerprint.
pub proof fn lemma_fingerprint_ignores_identity(a: &NormalizedChatRequest, b: &NormalizedChatRequest)
    requires
        same_content(a, b),
    ensures
        canonical(a) == canonical(b),
        fingerprint_of(a) == fingerprint_of(b),
{
    lemma_messages_part_same(a.messages@, b.messages@, a.messages@.len() as int);
}

} // verus!
