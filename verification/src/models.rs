//! Request and response shapes of the chat-completion surface, and the rules
//! that turn an incoming envelope into a normalized request.

use vstd::prelude::*;
use vstd::string::*;
use crate::text::{is_blank, is_lower_hex, str_is_blank};

verus! {

#[derive(Debug, Clone, Copy, PartialEq, Eq, Hash, Structural)]
pub enum MessageRole {
    System,
    User,
    Assistant,
    Tool,
}

/// A message as the client sent it.
#[derive(Debug)]
pub struct OpenAiMessage {
    pub role: MessageRole,
    pub content: String,
}

/// The incoming envelope. `temperature` and `top_p` hold the decimal text of
/// the number with four fractional digits, which is all the core reads of them.
#[derive(Debug)]
pub struct ChatCompletionsRequest {
    pub model: String,
    pub messages: Vec<OpenAiMessage>,
    pub max_tokens: Option<u32>,
    pub temperature: Option<String>,
    pub top_p: Option<String>,
    pub stream: bool,
    pub user: Option<String>,
}

#[derive(Debug)]
pub struct NormalizedMessage {
    pub role: MessageRole,
    pub content: String,
}

/// Generation parameters; the two sampling numbers are carried as decimal
/// text with four fractional digits.
#[derive(Debug)]
pub struct GenerationParams {
    pub max_tokens: Option<u32>,
    pub temperature: Option<String>,
    pub top_p: Option<String>,
}

#[derive(Debug)]
pub struct NormalizedChatRequest {
    pub request_id: String,
    pub user_id: String,
    pub model: String,
    pub messages: Vec<NormalizedMessage>,
    pub generation: GenerationParams,
    pub stream: bool,
}

#[derive(Debug, Clone, Copy, PartialEq, Eq, Structural)]
pub struct Usage {
    pub prompt_tokens: u32,
    pub completion_tokens: u32,
    pub total_tokens: u32,
}

#[derive(Debug)]
pub struct BackendChatResponse {
    pub content: String,
    pub finish_reason: String,
    pub usage: Usage,
}

#[derive(Debug)]
pub struct BackendChunk {
    pub delta: Option<String>,
    pub finish_reason: Option<String>,
    pub usage: Option<Usage>,
    pub done: bool,
}

#[derive(Debug)]
pub struct AssistantMessage {
    pub role: &'static str,
    pub content: String,
}

#[derive(Debug)]
pub struct ChatChoice {
    pub index: usize,
    pub message: AssistantMessage,
    pub finish_reason: String,
}

#[derive(Debug)]
pub struct ChatCompletionsResponse {
    pub id: String,
    pub object: String,
    pub created: i64,
    pub model: String,
    pub choices: Vec<ChatChoice>,
    pub usage: Usage,
}

#[derive(Debug)]
pub struct DeltaMessage {
    pub role: Option<&'static str>,
    pub content: Option<String>,
}

#[derive(Debug)]
pub struct ChunkChoice {
    pub index: usize,
    pub delta: DeltaMessage,
    pub finish_reason: Option<String>,
}

#[derive(Debug)]
pub struct ChatCompletionsChunk {
    pub id: String,
    pub object: String,
    pub created: i64,
    pub model: String,
    pub choices: Vec<ChunkChoice>,
}

/// Copies an optional text.
pub fn clone_opt_string(value: &Option<String>) -> (r: Option<String>)
    ensures
        r == *value,
{
    match value {
        Some(text) => Some(text.clone()),
        None => None,
    }
}

impl Clone for OpenAiMessage {
    fn clone(&self) -> (r: Self)
        ensures
            r == *self,
    {
        OpenAiMessage { role: self.role, content: self.content.clone() }
    }
}

impl Clone for NormalizedMessage {
    fn clone(&self) -> (r: Self)
        ensures
            r == *self,
    {
        NormalizedMessage { role: self.role, content: self.content.clone() }
    }
}

impl Clone for GenerationParams {
    fn clone(&self) -> (r: Self)
        ensures
            r == *self,
    {
        GenerationParams {
            max_tokens: self.max_tokens,
            temperature: clone_opt_string(&self.temperature),
            top_p: clone_opt_string(&self.top_p),
        }
    }
}

/// Copies a list of messages, in order.
pub fn clone_messages(messages: &Vec<NormalizedMessage>) -> (r: Vec<NormalizedMessage>)
    ensures
        r@ == messages@,
{
    let mut out: Vec<NormalizedMessage> = Vec::new();
    let mut i: usize = 0;
    while i < messages.len()
        invariant
            i <= messages.len(),
            out@ == messages@.take(i as int),
        decreases messages.len() - i,
    {
        out.push(messages[i].clone());
        assert(out@ =~= messages@.take(i + 1));
        i += 1;
    }
    assert(messages@.take(messages.len() as int) =~= messages@);
    out
}

impl NormalizedChatRequest {
    /// Two requests that agree in every field, message for message.
    pub open spec fn same_as(&self, other: &NormalizedChatRequest) -> bool {
        &&& self.request_id == other.request_id
        &&& self.user_id == other.user_id
        &&& self.model == other.model
        &&& self.messages@ == other.messages@
        &&& self.generation == other.generation
        &&& self.stream == other.stream
    }
}

impl Clone for NormalizedChatRequest {
    fn clone(&self) -> (r: Self)
        ensures
            r.same_as(self),
    {
        let messages = clone_messages(&self.messages);
        NormalizedChatRequest {
            request_id: self.request_id.clone(),
            user_id: self.user_id.clone(),
            model: self.model.clone(),
            messages,
            generation: self.generation.clone(),
            stream: self.stream,
        }
    }
}

impl Clone for BackendChatResponse {
    fn clone(&self) -> (r: Self)
        ensures
            r == *self,
    {
        BackendChatResponse {
            content: self.content.clone(),
            finish_reason: self.finish_reason.clone(),
            usage: self.usage,
        }
    }
}

impl Clone for BackendChunk {
    fn clone(&self) -> (r: Self)
        ensures
            r == *self,
    {
        BackendChunk {
            delta: clone_opt_string(&self.delta),
            finish_reason: clone_opt_string(&self.finish_reason),
            usage: self.usage,
            done: self.done,
        }
    }
}

/// Sum of two token counts, capped at the largest `u32`.
pub open spec fn saturating_total(prompt_tokens: u32, completion_tokens: u32) -> u32 {
    if prompt_tokens + completion_tokens > u32::MAX {
        u32::MAX
    } else {
        (prompt_tokens + completion_tokens) as u32
    }
}

impl Usage {
    /// A usage record is consistent when its total is the capped sum of its parts.
    pub open spec fn consistent(&self) -> bool {
        self.total_tokens == saturating_total(self.prompt_tokens, self.completion_tokens)
    }

    pub fn new(prompt_tokens: u32, completion_tokens: u32) -> (usage: Self)
        ensures
            usage.prompt_tokens == prompt_tokens,
            usage.completion_tokens == completion_tokens,
            usage.total_tokens == saturating_total(prompt_tokens, completion_tokens),
            usage.consistent(),
    {
        Usage {
            prompt_tokens,
            completion_tokens,
            total_tokens: prompt_tokens.saturating_add(completion_tokens),
        }
    }
}

/// The shape of a random identifier's text: 36 characters, hyphens at
/// positions 8, 13, 18 and 23, lower-case hex digits everywhere else.
pub open spec fn is_uuid_text(s: Seq<char>) -> bool {
    &&& s.len() == 36
    &&& forall|i: int|
        0 <= i < 36 ==> if i == 8 || i == 13 || i == 18 || i == 23 {
            #[trigger] s[i] == '-'
        } else {
            is_lower_hex(s[i])
        }
}

/// Text of a freshly drawn random identifier.
///
/// Calls `uuid::Uuid::new_v4` and renders it with its `Display` impl, which
/// writes the hyphenated lower-case form: 32 hex digits in groups of 8, 4, 4,
/// 4 and 12, with a hyphen between the groups. That shape is all that is
/// claimed; the digits are random.
#[verifier::external_body]
pub(crate) fn new_uuid_text() -> (text: String)
    ensures
        is_uuid_text(text@),
{
    uuid::Uuid::new_v4().to_string()
}

/// The request id made of a drawn identifier: `req_`, then the identifier.
pub fn request_id_from(suffix: &str) -> (id: String)
    ensures
        id@ == "req_"@ + suffix@,
{
    String::from_str("req_").concat(suffix)
}

/// What `into_normalized` yields for an accepted envelope: every field carried
/// over, messages in order, and a request id made of `req_` and the text of a
/// random identifier.
pub open spec fn normalizes(
    envelope: ChatCompletionsRequest,
    user_id: String,
    request: NormalizedChatRequest,
) -> bool {
    &&& request.user_id == user_id
    &&& request.model == envelope.model
    &&& request.generation.max_tokens == envelope.max_tokens
    &&& request.generation.temperature == envelope.temperature
    &&& request.generation.top_p == envelope.top_p
    &&& request.stream == envelope.stream
    &&& request.messages@.len() == envelope.messages@.len()
    &&& forall|i: int|
        0 <= i < envelope.messages@.len() ==> {
            &&& (#[trigger] request.messages@[i]).role == envelope.messages@[i].role
            &&& request.messages@[i].content == envelope.messages@[i].content
        }
    &&& request.request_id@.len() == 40
    &&& request.request_id@.subrange(0, 4) == "req_"@
    &&& is_uuid_text(request.request_id@.subrange(4, 40))
}

impl ChatCompletionsRequest {
    /// Validates the envelope and mints a request id. A blank model is
    /// rejected first, then an empty message list; anything else is accepted.
    pub fn into_normalized(self, user_id: String) -> (result: Result<NormalizedChatRequest, String>)
        ensures
            is_blank(self.model@) ==> result is Err && result->Err_0@ == "model is required"@,
            !is_blank(self.model@) && self.messages@.len() == 0 ==> result is Err
                && result->Err_0@ == "messages must not be empty"@,
            !is_blank(self.model@) && self.messages@.len() > 0 ==> result is Ok && normalizes(
                self,
                user_id,
                result->Ok_0,
            ),
    {
        if str_is_blank(self.model.as_str()) {
            return Err("model is required".to_owned());
        }
        if self.messages.len() == 0 {
            return Err("messages must not be empty".to_owned());
        }
        let mut messages: Vec<NormalizedMessage> = Vec::new();
        let mut i: usize = 0;
        while i < self.messages.len()
            invariant
                i <= self.messages@.len(),
                messages@.len() == i,
                forall|k: int|
                    0 <= k < i ==> {
                        &&& (#[trigger] messages@[k]).role == self.messages@[k].role
                        &&& messages@[k].content == self.messages@[k].content
                    },
            decreases self.messages@.len() - i,
        {
            messages.push(
                NormalizedMessage {
                    role: self.messages[i].role,
                    content: self.messages[i].content.clone(),
                },
            );
            i += 1;
        }
        let suffix = new_uuid_text();
        let request_id = request_id_from(suffix.as_str());
        proof {
            reveal_strlit("req_");
            assert(request_id@.subrange(0, 4) =~= "req_"@);
            assert(request_id@.subrange(4, 40) =~= suffix@);
        }
        Ok(
            NormalizedChatRequest {
                request_id,
                user_id,
                model: self.model,
                messages,
                generation: GenerationParams {
                    max_tokens: self.max_tokens,
                    temperature: self.temperature,
                    top_p: self.top_p,
                },
                stream: self.stream,
            },
        )
    }
}

impl ChatCompletionsResponse {
    /// Wraps a backend answer in the one-choice completion envelope.
    pub fn from_backend(id: String, created: i64, model: String, backend: BackendChatResponse) -> (r:
        Self)
        ensures
            r.id == id,
            r.object@ == "chat.completion"@,
            r.created == created,
            r.model == model,
            r.usage == backend.usage,
            r.choices@.len() == 1,
            r.choices@[0].index == 0,
            r.choices@[0].message.role@ == "assistant"@,
            r.choices@[0].message.content == backend.content,
            r.choices@[0].finish_reason == backend.finish_reason,
    {
        ChatCompletionsResponse {
            id,
            object: "chat.completion".to_owned(),
            created,
            model,
            choices: vec![
                ChatChoice {
                    index: 0,
                    message: AssistantMessage { role: "assistant", content: backend.content },
                    finish_reason: backend.finish_reason,
                },
            ],
            usage: backend.usage,
        }
    }
}

impl ChatCompletionsChunk {
    /// The header every stream chunk shares, and its single choice at index 0.
    pub open spec fn framed(&self, id: Seq<char>, created: i64, model: Seq<char>) -> bool {
        &&& self.id@ == id
        &&& self.object@ == "chat.completion.chunk"@
        &&& self.created == created
        &&& self.model@ == model
        &&& self.choices@.len() == 1
        &&& self.choices@[0].index == 0
    }

    /// The opening chunk: it names the assistant role and nothing else.
    pub fn role(id: &str, created: i64, model: &str) -> (r: Self)
        ensures
            r.framed(id@, created, model@),
            r.choices@[0].delta.role is Some,
            r.choices@[0].delta.role->Some_0@ == "assistant"@,
            r.choices@[0].delta.content is None,
            r.choices@[0].finish_reason is None,
    {
        ChatCompletionsChunk {
            id: id.to_owned(),
            object: "chat.completion.chunk".to_owned(),
            created,
            model: model.to_owned(),
            choices: vec![
                ChunkChoice {
                    index: 0,
                    delta: DeltaMessage { role: Some("assistant"), content: None },
                    finish_reason: None,
                },
            ],
        }
    }

    /// A content chunk: it carries `content` and nothing else.
    pub fn delta(id: &str, created: i64, model: &str, content: String) -> (r: Self)
        ensures
            r.framed(id@, created, model@),
            r.choices@[0].delta.role is None,
            r.choices@[0].delta.content == Some(content),
            r.choices@[0].finish_reason is None,
    {
        ChatCompletionsChunk {
            id: id.to_owned(),
            object: "chat.completion.chunk".to_owned(),
            created,
            model: model.to_owned(),
            choices: vec![
                ChunkChoice {
                    index: 0,
                    delta: DeltaMessage { role: None, content: Some(content) },
                    finish_reason: None,
                },
            ],
        }
    }

    /// The closing chunk: an empty delta and the finish reason.
    pub fn finish(id: &str, created: i64, model: &str, finish_reason: String) -> (r: Self)
        ensures
            r.framed(id@, created, model@),
            r.choices@[0].delta.role is None,
            r.choices@[0].delta.content is None,
            r.choices@[0].finish_reason == Some(finish_reason),
    {
        ChatCompletionsChunk {
            id: id.to_owned(),
            object: "chat.completion.chunk".to_owned(),
            created,
            model: model.to_owned(),
            choices: vec![
                ChunkChoice {
                    index: 0,
                    delta: DeltaMessage { role: None, content: None },
                    finish_reason: Some(finish_reason),
                },
            ],
        }
    }
}

/// Whatever the two counts, the total of a usage record made by `Usage::new`
/// is their sum, capped at the largest `u32`; the completion envelope carries
/// the record unchanged.
pub proof fn lemma_total_is_capped_sum(usage: Usage)
    requires
        usage.consistent(),
    ensures
        usage.prompt_tokens + usage.completion_tokens <= u32::MAX ==> usage.total_tokens
            == usage.prompt_tokens + usage.completion_tokens,
        usage.prompt_tokens + usage.completion_tokens > u32::MAX ==> usage.total_tokens == u32::MAX,
{
}

} // verus!
