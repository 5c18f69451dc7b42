//! A deterministic stand-in backend that echoes the last user message.

use vstd::prelude::*;
use vstd::string::*;
use crate::backend::BackendError;
use crate::limits::{prompt_word_total, prompt_words};
use crate::models::{
    BackendChatResponse,
    BackendChunk,
    MessageRole,
    NormalizedChatRequest,
    NormalizedMessage,
    Usage,
};
use crate::text::{char_is_whitespace, count_words, is_whitespace, texts, word_count};

verus! {

#[derive(Debug)]
pub struct MockBackend {
    name: String,
    token_delay_ms: u64,
}

/// The content of the last user message among the first `n`, or `hello`
/// where there is none.
pub open spec fn last_user_content(messages: Seq<NormalizedMessage>, n: int) -> Seq<char>
    decreases n,
{
    if n <= 0 {
        "hello"@
    } else if messages[n - 1].role == MessageRole::User {
        messages[n - 1].content@
    } else {
        last_user_content(messages, n - 1)
    }
}

/// The answer of the stand-in backend.
pub open spec fn rendered(request: &NormalizedChatRequest) -> Seq<char> {
    "Mock response for model "@ + request.model@ + ": "@ + last_user_content(
        request.messages@,
        request.messages@.len() as int,
    )
}

/// A count capped at the largest `u32`.
pub open spec fn capped_u32(n: nat) -> u32 {
    if n > u32::MAX {
        u32::MAX
    } else {
        n as u32
    }
}

/// The usage the stand-in backend reports: the words of the prompt and the
/// words of the completion.
pub open spec fn estimated_usage(request: &NormalizedChatRequest, completion: Seq<char>) -> Usage {
    let prompt = capped_u32(prompt_words(request.messages@, request.messages@.len() as int));
    let completed = capped_u32(word_count(completion));
    Usage {
        prompt_tokens: prompt,
        completion_tokens: completed,
        total_tokens: crate::models::saturating_total(prompt, completed),
    }
}

/// The words of `s` from index `i` on, where `current` holds the characters
/// of the word that is being read.
pub open spec fn words_scan(s: Seq<char>, i: int, current: Seq<char>) -> Seq<Seq<char>>
    decreases s.len() - i,
{
    let closed = if current.len() > 0 {
        seq![current]
    } else {
        Seq::<Seq<char>>::empty()
    };
    if i < 0 || i >= s.len() {
        closed
    } else if is_whitespace(s[i]) {
        closed + words_scan(s, i + 1, Seq::<char>::empty())
    } else {
        words_scan(s, i + 1, current.push(s[i]))
    }
}

/// The whitespace-separated words of a text, in order.
pub open spec fn words_of(s: Seq<char>) -> Seq<Seq<char>> {
    words_scan(s, 0, Seq::<char>::empty())
}

/// The pieces a text is streamed in: its words, each but the last followed
/// by one space.
pub open spec fn stream_pieces(s: Seq<char>) -> Seq<Seq<char>> {
    let words = words_of(s);
    Seq::new(
        words.len(),
        |k: int|
            if k + 1 == words.len() {
                words[k]
            } else {
                words[k] + " "@
            },
    )
}

impl Default for MockBackend {
    fn default() -> (backend: Self)
        ensures
            backend.spec_name() == "mock-backend"@,
            backend.spec_token_delay_ms() == 35,
    {
        MockBackend { name: "mock-backend".to_owned(), token_delay_ms: 35 }
    }
}

impl MockBackend {
    pub closed spec fn spec_name(&self) -> Seq<char> {
        self.name@
    }

    pub closed spec fn spec_token_delay_ms(&self) -> u64 {
        self.token_delay_ms
    }

    /// A stand-in backend of the given name, with the default delay of 35 ms
    /// between streamed pieces.
    pub fn named(name: &str) -> (backend: Self)
        ensures
            backend.spec_name() == name@,
            backend.spec_token_delay_ms() == 35,
    {
        MockBackend { name: name.to_owned(), token_delay_ms: 35 }
    }

    pub fn name(&self) -> (name: &str)
        ensures
            name@ == self.spec_name(),
    {
        self.name.as_str()
    }

    pub fn token_delay_ms(&self) -> (delay: u64)
        ensures
            delay == self.spec_token_delay_ms(),
    {
        self.token_delay_ms
    }

    /// Answers a request in one piece; the call never fails.
    pub fn execute_chat(&self, request: &NormalizedChatRequest) -> (result: Result<
        BackendChatResponse,
        BackendError,
    >)
        ensures
            result matches Ok(response) && {
                &&& response.content@ == rendered(request)
                &&& response.finish_reason@ == "stop"@
                &&& response.usage == estimated_usage(request, rendered(request))
                &&& response.usage.consistent()
            },
    {
        let content = render_response(request);
        let usage = estimate_usage(request, content.as_str());
        Ok(BackendChatResponse { content, finish_reason: "stop".to_owned(), usage })
    }

    /// The chunks of a streamed answer: one per piece of the content, then a
    /// single closing chunk that is marked done and carries the usage.
    pub fn stream_chunks(&self, request: &NormalizedChatRequest) -> (chunks: Vec<BackendChunk>)
        ensures
            chunks@.len() == stream_pieces(rendered(request)).len() + 1,
            forall|k: int|
                0 <= k < chunks@.len() - 1 ==> {
                    &&& (#[trigger] chunks@[k]).delta is Some
                    &&& chunks@[k].delta->Some_0@ == stream_pieces(rendered(request))[k]
                    &&& chunks@[k].finish_reason is None
                    &&& chunks@[k].usage is None
                    &&& !chunks@[k].done
                },
            chunks@.last().done,
            chunks@.last().delta is None,
            chunks@.last().finish_reason is Some,
            chunks@.last().finish_reason->Some_0@ == "stop"@,
            chunks@.last().usage == Some(estimated_usage(request, rendered(request))),
    {
        let content = render_response(request);
        let usage = estimate_usage(request, content.as_str());
        let mut pieces = split_for_stream(content.as_str());
        let ghost all = texts(pieces@);
        let mut chunks: Vec<BackendChunk> = Vec::new();
        let mut i: usize = 0;
        while i < pieces.len()
            invariant
                i <= pieces@.len(),
                texts(pieces@) == all,
                chunks@.len() == i,
                forall|k: int|
                    0 <= k < i ==> {
                        &&& (#[trigger] chunks@[k]).delta is Some
                        &&& chunks@[k].delta->Some_0@ == all[k]
                        &&& chunks@[k].finish_reason is None
                        &&& chunks@[k].usage is None
                        &&& !chunks@[k].done
                    },
            decreases pieces@.len() - i,
        {
            let piece = pieces[i].clone();
            assert(piece@ == all[i as int]);
            chunks.push(
                BackendChunk { delta: Some(piece), finish_reason: None, usage: None, done: false },
            );
            i += 1;
        }
        chunks.push(
            BackendChunk {
                delta: None,
                finish_reason: Some("stop".to_owned()),
                usage: Some(usage),
                done: true,
            },
        );
        chunks
    }
}

pub fn render_response(request: &NormalizedChatRequest) -> (content: String)
    ensures
        content@ == rendered(request),
{
    let mut content = String::from_str("Mock response for model ");
    content.append(request.model.as_str());
    content.append(": ");
    let mut n: usize = request.messages.len();
    while n > 0
        invariant
            n <= request.messages@.len(),
            content@ == "Mock response for model "@ + request.model@ + ": "@,
            last_user_content(request.messages@, n as int) == last_user_content(
                request.messages@,
                request.messages@.len() as int,
            ),
        decreases n,
    {
        if request.messages[n - 1].role == MessageRole::User {
            content.append(request.messages[n - 1].content.as_str());
            assert(content@ =~= rendered(request));
            return content;
        }
        n -= 1;
    }
    content.append("hello");
    assert(content@ =~= rendered(request));
    content
}

/// Rough token count of a text: its words, capped at the largest `u32`.
pub fn rough_token_estimate(text: &str) -> (count: u32)
    ensures
        count == capped_u32(word_count(text@)),
{
    let words = count_words(text);
    if words > 0xffff_ffff {
        0xffff_ffff
    } else {
        words as u32
    }
}

pub fn estimate_usage(request: &NormalizedChatRequest, completion: &str) -> (usage: Usage)
    ensures
        usage == estimated_usage(request, completion@),
        usage.consistent(),
{
    let prompt_total = prompt_word_total(&request.messages);
    let prompt_tokens: u32 = if prompt_total > 0xffff_ffff {
        0xffff_ffff
    } else {
        prompt_total as u32
    };
    let completion_tokens = rough_token_estimate(completion);
    Usage::new(prompt_tokens, completion_tokens)
}

/// Splits a text into the pieces it is streamed in.
pub fn split_for_stream(text: &str) -> (pieces: Vec<String>)
    ensures
        texts(pieces@) == stream_pieces(text@),
{
    let n: usize = text.unicode_len();
    let mut words: Vec<String> = Vec::new();
    let mut start: usize = 0;
    let mut in_word: bool = false;
    let mut i: usize = 0;
    while i < n
        invariant
            n == text@.len(),
            i <= n,
            in_word ==> start < i,
            texts(words@) + words_scan(
                text@,
                i as int,
                if in_word {
                    text@.subrange(start as int, i as int)
                } else {
                    Seq::<char>::empty()
                },
            ) == words_of(text@),
        decreases n - i,
    {
        let ghost current = if in_word {
            text@.subrange(start as int, i as int)
        } else {
            Seq::<char>::empty()
        };
        if char_is_whitespace(text.get_char(i)) {
            if in_word {
                let ghost before = texts(words@);
                words.push(text.substring_char(start, i).to_owned());
                assert(texts(words@) =~= before + seq![current]);
                assert(texts(words@) + words_scan(text@, i + 1, Seq::<char>::empty()) =~= before
                    + (seq![current] + words_scan(text@, i + 1, Seq::<char>::empty())));
                in_word = false;
            } else {
                assert(Seq::<Seq<char>>::empty() + words_scan(text@, i + 1, Seq::<char>::empty())
                    =~= words_scan(text@, i + 1, Seq::<char>::empty()));
            }
        } else {
            if !in_word {
                start = i;
                in_word = true;
            }
            assert(text@.subrange(start as int, i + 1) =~= current.push(text@[i as int]));
        }
        i += 1;
    }
    if in_word {
        let ghost before = texts(words@);
        words.push(text.substring_char(start, n).to_owned());
        assert(texts(words@) =~= before + seq![text@.subrange(start as int, n as int)]);
    } else {
        assert(texts(words@) + Seq::<Seq<char>>::empty() =~= texts(words@));
    }
    assert(texts(words@) == words_of(text@));
    let mut pieces: Vec<String> = Vec::new();
    let mut k: usize = 0;
    while k < words.len()
        invariant
            k <= words@.len(),
            texts(words@) == words_of(text@),
            pieces@.len() == k,
            forall|j: int| 0 <= j < k ==> (#[trigger] pieces@[j])@ == stream_pieces(text@)[j],
        decreases words@.len() - k,
    {
        let mut piece = words[k].clone();
        assert(piece@ == texts(words@)[k as int]);
        if k + 1 != words.len() {
            piece.append(" ");
        }
        pieces.push(piece);
        k += 1;
    }
    assert(texts(pieces@) =~= stream_pieces(text@));
    pieces
}

} // verus!
