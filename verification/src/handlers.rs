//! The decisions of the request pipeline: admission of a request, error
//! mapping, response headers, and the event sequence of a streamed answer.

use vstd::prelude::*;
use vstd::string::*;
use crate::auth::{ApiKeyRegistry, AuthContext, user_id_for};
use crate::backend::BackendError;
use crate::coalescing::{
    is_open,
    is_terminal,
    items_sent_to,
    lemma_late_joiner_catches_up,
    streams_after_items,
    streams_after_join,
    StreamItem,
    StreamState,
};
use crate::errors::AppError;
use crate::limits::{
    decimal_headers,
    estimate_request_tokens,
    estimated_tokens,
    RateLimitError,
    RateLimitSnapshot,
    RateLimiter,
};
use crate::models::{
    is_uuid_text,
    new_uuid_text,
    normalizes,
    BackendChunk,
    ChatCompletionsChunk,
    ChatCompletionsRequest,
    NormalizedChatRequest,
    Usage,
};
use crate::scheduler::{fingerprint_for, fingerprint_of, RequestFingerprint};
use crate::text::{is_blank, trimmed};

verus! {

/// What the quota check of an admitted request yields.
#[derive(Debug)]
pub struct Charged {
    pub estimated_tokens: u64,
    pub rate_snapshot: RateLimitSnapshot,
    pub fingerprint: RequestFingerprint,
}

/// The estimate of a request, capped at the largest `u64`.
pub open spec fn capped_estimate(request: &NormalizedChatRequest) -> u64 {
    if estimated_tokens(request) > u64::MAX {
        u64::MAX
    } else {
        estimated_tokens(request) as u64
    }
}

/// Whether a header value names a registered key.
pub open spec fn authorized(registry: &ApiKeyRegistry, header: Option<&str>) -> bool {
    &&& header is Some
    &&& trimmed(header->Some_0@).len() > 0
    &&& registry.accepts(trimmed(header->Some_0@))
}

/// The rejection that reports a quota error: its message and the headers of
/// its snapshot.
pub fn rate_limited(error: &RateLimitError) -> (rejection: AppError)
    ensures
        rejection matches AppError::RateLimited { message, headers } && message@
            == error.spec_message() && decimal_headers(error.spec_snapshot(), headers@),
{
    AppError::RateLimited {
        message: error.message().to_owned(),
        headers: error.snapshot().to_header_pairs(),
    }
}

/// The rejection that reports an upstream failure.
pub fn backend_failure(error: &BackendError) -> (rejection: AppError)
    ensures
        rejection matches AppError::Backend(message) && message@ == error.spec_describe(),
{
    AppError::Backend(error.describe())
}

/// Authenticates the caller by the value of its `x-api-key` header, then
/// validates the envelope. Authentication comes first; neither step touches
/// shared state.
pub fn admit_request(
    registry: &ApiKeyRegistry,
    header: Option<&str>,
    envelope: ChatCompletionsRequest,
) -> (result: Result<(AuthContext, NormalizedChatRequest), AppError>)
    ensures
        !authorized(registry, header) ==> (result matches Err(AppError::Unauthorized(message))
            && message@ == (if header is None || trimmed(header->Some_0@).len() == 0 {
            "missing x-api-key header"@
        } else {
            "invalid api key"@
        })),
        authorized(registry, header) && (is_blank(envelope.model@) || envelope.messages@.len() == 0)
            ==> (result matches Err(AppError::BadRequest(message)) && message@ == (if is_blank(
            envelope.model@,
        ) {
            "model is required"@
        } else {
            "messages must not be empty"@
        })),
        authorized(registry, header) && !is_blank(envelope.model@) && envelope.messages@.len() > 0
            ==> (result matches Ok(admitted) && {
            &&& admitted.0.api_key@ == trimmed(header->Some_0@)
            &&& admitted.0.user_id@ == user_id_for(admitted.0.api_key@)
            &&& admitted.0.policy == registry.spec_policy()
            &&& admitted.1.user_id@ == admitted.0.user_id@
            &&& normalizes(envelope, admitted.1.user_id, admitted.1)
        }),
{
    let context = match registry.authenticate(header) {
        Ok(context) => context,
        Err(error) => {
            return Err(error);
        },
    };
    match envelope.into_normalized(context.user_id.clone()) {
        Ok(request) => Ok((context, request)),
        Err(message) => Err(AppError::BadRequest(message)),
    }
}

/// Charges an admitted request against the quotas of its key at time `now`
/// and derives its fingerprint. A rejection consumes nothing.
pub fn charge_request(
    limiter: &mut RateLimiter,
    context: &AuthContext,
    request: &NormalizedChatRequest,
    now: u64,
) -> (result: Result<Charged, AppError>)
    requires
        old(limiter).wf(),
    ensures
        final(limiter).wf(),
        match result {
            Ok(charged) => {
                &&& charged.estimated_tokens == capped_estimate(request)
                &&& charged.fingerprint@ == fingerprint_of(request)
                &&& old(limiter).checked_at(
                    final(limiter),
                    context.api_key@,
                    context.policy,
                    capped_estimate(request),
                    now,
                    Ok(charged.rate_snapshot),
                )
            },
            Err(AppError::RateLimited { message, headers }) => exists|error: RateLimitError|
                {
                    &&& #[trigger] old(limiter).checked_at(
                        final(limiter),
                        context.api_key@,
                        context.policy,
                        capped_estimate(request),
                        now,
                        Err(error),
                    )
                    &&& message@ == error.spec_message()
                    &&& decimal_headers(error.spec_snapshot(), headers@)
                },
            Err(_) => false,
        },
{
    let estimate = estimate_request_tokens(request);
    match limiter.check_and_consume(context.api_key.as_str(), &context.policy, estimate, now) {
        Ok(rate_snapshot) => Ok(
            Charged {
                estimated_tokens: estimate,
                rate_snapshot,
                fingerprint: fingerprint_for(request),
            },
        ),
        Err(error) => {
            let rejection = rate_limited(&error);
            assert(old(limiter).checked_at(
                limiter,
                context.api_key@,
                context.policy,
                capped_estimate(request),
                now,
                Err(error),
            ));
            Err(rejection)
        },
    }
}

/// The id of a completion made of a drawn identifier: `chatcmpl-`, then the
/// identifier.
pub fn response_id_from(suffix: &str) -> (id: String)
    ensures
        id@ == "chatcmpl-"@ + suffix@,
{
    String::from_str("chatcmpl-").concat(suffix)
}

/// A fresh id for a completion: `chatcmpl-`, then the text of a random
/// identifier.
pub fn new_response_id() -> (id: String)
    ensures
        id@.len() == 45,
        id@.subrange(0, 9) == "chatcmpl-"@,
        is_uuid_text(id@.subrange(9, 45)),
{
    let suffix = new_uuid_text();
    let id = response_id_from(suffix.as_str());
    proof {
        reveal_strlit("chatcmpl-");
        assert(id@.subrange(0, 9) =~= "chatcmpl-"@);
        assert(id@.subrange(9, 45) =~= suffix@);
    }
    id
}

/// The headers of a completion: the eight rate-limit headers, then `x-cache`
/// with `hit` or `miss`.
pub fn completion_headers(snapshot: &RateLimitSnapshot, cache_hit: bool) -> (headers: Vec<
    (String, String),
>)
    ensures
        headers@.len() == 9,
        decimal_headers(*snapshot, headers@.take(8)),
        headers@[8].0@ == "x-cache"@,
        headers@[8].1@ == (if cache_hit {
            "hit"@
        } else {
            "miss"@
        }),
{
    let mut headers = snapshot.to_header_pairs();
    let ghost pairs = headers@;
    let value = if cache_hit {
        "hit"
    } else {
        "miss"
    };
    headers.push(("x-cache".to_owned(), value.to_owned()));
    assert(headers@.take(8) =~= pairs);
    headers
}

/// What the leader of a stream publishes for what the backend yielded, and
/// whether it stops reading: after a chunk marked done and after an error.
pub fn leader_forward(upstream: Result<BackendChunk, BackendError>) -> (forward: (StreamItem, bool))
    ensures
        forward.1 == is_terminal(forward.0),
        match upstream {
            Ok(chunk) => forward.0 == Ok::<BackendChunk, String>(chunk),
            Err(error) => forward.0 matches Err(message) && message@ == error.spec_describe(),
        },
{
    match upstream {
        Ok(chunk) => {
            let done = chunk.done;
            (Ok(chunk), done)
        },
        Err(error) => (Err(error.describe()), true),
    }
}

/// One event of a streamed answer.
#[derive(Debug)]
pub enum StreamEvent {
    /// A `chat.completion.chunk` envelope.
    Chunk(ChatCompletionsChunk),
    /// An error envelope of type `backend_error` with this message.
    Failure(String),
    /// The literal `[DONE]`.
    Done,
}

/// What one received item turns into.
#[derive(Debug)]
pub struct Emission {
    pub events: Vec<StreamEvent>,
    /// The usage to reconcile and record, where the item carries one.
    pub usage: Option<Usage>,
}

/// The encoder of one client's stream.
#[derive(Debug, Clone, Copy, PartialEq, Eq, Structural)]
pub struct StreamEncoder {
    pub emitted_role: bool,
    pub finished: bool,
}

/// Number of events that an item turns into.
pub open spec fn event_count(encoder: StreamEncoder, item: StreamItem) -> nat {
    if encoder.finished {
        0
    } else {
        match item {
            Ok(chunk) => (if encoder.emitted_role {
                0nat
            } else {
                1nat
            }) + (if has_content(chunk) {
                1nat
            } else {
                0nat
            }) + (if chunk.done {
                2nat
            } else {
                0nat
            }),
            Err(_) => 2,
        }
    }
}

/// A chunk has content when its delta is there and not empty.
pub open spec fn has_content(chunk: BackendChunk) -> bool {
    chunk.delta matches Some(text) && text@.len() > 0
}

/// The finish reason of a chunk, `stop` where it names none.
pub open spec fn finish_reason_of(chunk: BackendChunk) -> Seq<char> {
    match chunk.finish_reason {
        Some(reason) => reason@,
        None => "stop"@,
    }
}

/// The encoder after an item.
pub open spec fn encoder_after(encoder: StreamEncoder, item: StreamItem) -> StreamEncoder {
    if encoder.finished {
        encoder
    } else {
        StreamEncoder {
            emitted_role: encoder.emitted_role || item is Ok,
            finished: is_terminal(item),
        }
    }
}

/// What an event says, apart from the id, time and model of its envelope.
pub enum EventKind {
    Role,
    Delta(Seq<char>),
    Finish(Seq<char>),
    Failure(Seq<char>),
    Done,
}

/// What a list of events says, event by event.
pub open spec fn event_kinds(events: Seq<StreamEvent>) -> Seq<EventKind> {
    events.map_values(|event: StreamEvent| event.kind())
}

/// What an item makes the encoder say: for a chunk, the role if none was
/// said yet, its content if it has any, and, when it is marked done, the
/// finish reason and the end marker; for an error, the failure and the end
/// marker; nothing once the stream has finished.
pub open spec fn kinds_of_item(encoder: StreamEncoder, item: StreamItem) -> Seq<EventKind> {
    if encoder.finished {
        Seq::<EventKind>::empty()
    } else {
        match item {
            Ok(chunk) => (if encoder.emitted_role {
                Seq::<EventKind>::empty()
            } else {
                seq![EventKind::Role]
            }) + delta_kind(item) + (if chunk.done {
                seq![EventKind::Finish(finish_reason_of(chunk)), EventKind::Done]
            } else {
                Seq::<EventKind>::empty()
            }),
            Err(message) => seq![EventKind::Failure(message@), EventKind::Done],
        }
    }
}

/// The content that an item carries, as a list of at most one event.
pub open spec fn delta_kind(item: StreamItem) -> Seq<EventKind> {
    match item {
        Ok(chunk) => if has_content(chunk) {
            seq![EventKind::Delta(chunk.delta->Some_0@)]
        } else {
            Seq::<EventKind>::empty()
        },
        Err(_) => Seq::<EventKind>::empty(),
    }
}

impl StreamEvent {
    /// What the event says.
    pub open spec fn kind(&self) -> EventKind {
        match self {
            StreamEvent::Chunk(chunk) => {
                let choice = chunk.choices@[0];
                if choice.delta.role is Some {
                    EventKind::Role
                } else if choice.delta.content is Some {
                    EventKind::Delta(choice.delta.content->Some_0@)
                } else {
                    EventKind::Finish(
                        match choice.finish_reason {
                            Some(reason) => reason@,
                            None => Seq::<char>::empty(),
                        },
                    )
                }
            },
            StreamEvent::Failure(message) => EventKind::Failure(message@),
            StreamEvent::Done => EventKind::Done,
        }
    }

    pub open spec fn is_role(&self, id: Seq<char>, created: i64, model: Seq<char>) -> bool {
        match self {
            StreamEvent::Chunk(chunk) => {
                &&& chunk.framed(id, created, model)
                &&& chunk.choices@[0].delta.role is Some
                &&& chunk.choices@[0].delta.role->Some_0@ == "assistant"@
                &&& chunk.choices@[0].delta.content is None
                &&& chunk.choices@[0].finish_reason is None
            },
            _ => false,
        }
    }

    pub open spec fn is_delta(
        &self,
        id: Seq<char>,
        created: i64,
        model: Seq<char>,
        content: Seq<char>,
    ) -> bool {
        match self {
            StreamEvent::Chunk(chunk) => {
                &&& chunk.framed(id, created, model)
                &&& chunk.choices@[0].delta.role is None
                &&& chunk.choices@[0].delta.content is Some
                &&& chunk.choices@[0].delta.content->Some_0@ == content
                &&& chunk.choices@[0].finish_reason is None
            },
            _ => false,
        }
    }

    pub open spec fn is_finish(
        &self,
        id: Seq<char>,
        created: i64,
        model: Seq<char>,
        reason: Seq<char>,
    ) -> bool {
        match self {
            StreamEvent::Chunk(chunk) => {
                &&& chunk.framed(id, created, model)
                &&& chunk.choices@[0].delta.role is None
                &&& chunk.choices@[0].delta.content is None
                &&& chunk.choices@[0].finish_reason is Some
                &&& chunk.choices@[0].finish_reason->Some_0@ == reason
            },
            _ => false,
        }
    }
}

impl StreamEncoder {
    /// The encoder of a stream that has emitted nothing yet.
    pub fn new() -> (encoder: Self)
        ensures
            !encoder.emitted_role,
            !encoder.finished,
    {
        StreamEncoder { emitted_role: false, finished: false }
    }

    /// Turns one received item into events. A chunk yields the role chunk if
    /// none was emitted yet, a delta chunk if it has content, and, when it is
    /// marked done, the finish chunk and `[DONE]`. An error yields the error
    /// envelope and `[DONE]`. Once the stream has finished nothing more is
    /// emitted.
    pub fn on_item(&mut self, item: StreamItem, id: &str, created: i64, model: &str) -> (emission:
        Emission)
        ensures
            *final(self) == encoder_after(*old(self), item),
            event_kinds(emission.events@) == kinds_of_item(*old(self), item),
            emission.events@.len() == event_count(*old(self), item),
            forall|k: int|
                0 <= k < emission.events@.len() ==> ((#[trigger] emission.events@[k]) is Done <==> (
                emits_done(*old(self), item) && k == emission.events@.len() - 1)),
            emission.usage == (match item {
                Ok(chunk) if !old(self).finished && chunk.done => chunk.usage,
                _ => None,
            }),
            !old(self).finished ==> match item {
                Ok(chunk) => {
                    let first = if old(self).emitted_role {
                        0int
                    } else {
                        1int
                    };
                    let second = if has_content(chunk) {
                        first + 1
                    } else {
                        first
                    };
                    &&& !old(self).emitted_role ==> emission.events@[0].is_role(id@, created, model@)
                    &&& has_content(chunk) ==> emission.events@[first].is_delta(
                        id@,
                        created,
                        model@,
                        chunk.delta->Some_0@,
                    )
                    &&& chunk.done ==> emission.events@[second].is_finish(
                        id@,
                        created,
                        model@,
                        finish_reason_of(chunk),
                    ) && emission.events@[second + 1] is Done
                },
                Err(message) => {
                    &&& emission.events@[0] matches StreamEvent::Failure(text) && text == message
                    &&& emission.events@[1] is Done
                },
            },
    {
        let mut events: Vec<StreamEvent> = Vec::new();
        let ghost given = item;
        if self.finished {
            assert(event_kinds(events@) =~= kinds_of_item(*old(self), given));
            return Emission { events, usage: None };
        }
        match item {
            Ok(chunk) => {
                if !self.emitted_role {
                    self.emitted_role = true;
                    events.push(StreamEvent::Chunk(ChatCompletionsChunk::role(id, created, model)));
                }
                let done = chunk.done;
                let usage = chunk.usage;
                match chunk.delta {
                    Some(delta) => {
                        if delta.as_str().unicode_len() > 0 {
                            events.push(
                                StreamEvent::Chunk(
                                    ChatCompletionsChunk::delta(id, created, model, delta),
                                ),
                            );
                        }
                    },
                    None => {},
                }
                if done {
                    let finish_reason = match chunk.finish_reason {
                        Some(reason) => reason,
                        None => "stop".to_owned(),
                    };
                    events.push(
                        StreamEvent::Chunk(
                            ChatCompletionsChunk::finish(id, created, model, finish_reason),
                        ),
                    );
                    events.push(StreamEvent::Done);
                    self.finished = true;
                    assert(event_kinds(events@) =~= kinds_of_item(*old(self), given));
                    Emission { events, usage }
                } else {
                    assert(event_kinds(events@) =~= kinds_of_item(*old(self), given));
                    Emission { events, usage: None }
                }
            },
            Err(message) => {
                events.push(StreamEvent::Failure(message));
                events.push(StreamEvent::Done);
                self.finished = true;
                assert(event_kinds(events@) =~= kinds_of_item(*old(self), given));
                Emission { events, usage: None }
            },
        }
    }

    /// The channel closed: `[DONE]` is emitted unless the stream has finished.
    pub fn on_close(&mut self) -> (events: Vec<StreamEvent>)
        ensures
            final(self).finished,
            final(self).emitted_role == old(self).emitted_role,
            old(self).finished ==> events@.len() == 0,
            !old(self).finished ==> events@.len() == 1 && events@[0] is Done,
    {
        let mut events: Vec<StreamEvent> = Vec::new();
        if !self.finished {
            events.push(StreamEvent::Done);
            self.finished = true;
        }
        events
    }
}

/// The encoder after the first `n` of `items`.
pub open spec fn encoder_after_items(encoder: StreamEncoder, items: Seq<StreamItem>, n: int) -> StreamEncoder
    decreases n,
{
    if n <= 0 {
        encoder
    } else {
        encoder_after(encoder_after_items(encoder, items, n - 1), items[n - 1])
    }
}

/// Whether an item makes the encoder emit `[DONE]`: it is terminal and the
/// stream has not finished.
pub open spec fn emits_done(encoder: StreamEncoder, item: StreamItem) -> bool {
    !encoder.finished && is_terminal(item)
}

/// Number of `[DONE]` events that the first `n` of `items` make the encoder emit.
pub open spec fn done_events(encoder: StreamEncoder, items: Seq<StreamItem>, n: int) -> nat
    decreases n,
{
    if n <= 0 {
        0
    } else {
        done_events(encoder, items, n - 1) + (if emits_done(
            encoder_after_items(encoder, items, n - 1),
            items[n - 1],
        ) {
            1nat
        } else {
            0nat
        })
    }
}

/// Every client stream ends with exactly one `[DONE]`: whatever items arrive,
/// one has been emitted exactly when the stream has finished, so that closing
/// the stream adds the one that is missing and no second one.
pub proof fn lemma_exactly_one_done(encoder: StreamEncoder, items: Seq<StreamItem>, n: int)
    requires
        !encoder.finished,
        0 <= n <= items.len(),
    ensures
        done_events(encoder, items, n) == (if encoder_after_items(encoder, items, n).finished {
            1nat
        } else {
            0nat
        }),
    decreases n,
{
    if n > 0 {
        lemma_exactly_one_done(encoder, items, n - 1);
    }
}

/// What the first `n` of `items` make the encoder say, in order.
pub open spec fn run_kinds(encoder: StreamEncoder, items: Seq<StreamItem>, n: int) -> Seq<EventKind>
    decreases n,
{
    if n <= 0 {
        Seq::<EventKind>::empty()
    } else {
        run_kinds(encoder, items, n - 1) + kinds_of_item(
            encoder_after_items(encoder, items, n - 1),
            items[n - 1],
        )
    }
}

/// The contents of the first `n` of `items`, in order.
pub open spec fn delta_kinds(items: Seq<StreamItem>, n: int) -> Seq<EventKind>
    decreases n,
{
    if n <= 0 {
        Seq::<EventKind>::empty()
    } else {
        delta_kinds(items, n - 1) + delta_kind(items[n - 1])
    }
}

/// A stream of chunks that ends well: every item is a chunk, and the last
/// one, and only the last one, is marked done.
pub open spec fn ends_with_done(items: Seq<StreamItem>) -> bool {
    &&& items.len() > 0
    &&& forall|k: int| 0 <= k < items.len() ==> (#[trigger] items[k]) is Ok
    &&& forall|k: int| 0 <= k < items.len() ==> ((#[trigger] items[k])->Ok_0.done <==> k
        == items.len() - 1)
}

/// A fresh encoder.
pub open spec fn fresh_encoder() -> StreamEncoder {
    StreamEncoder { emitted_role: false, finished: false }
}

proof fn lemma_kinds_before_the_end(items: Seq<StreamItem>, m: int)
    requires
        ends_with_done(items),
        0 <= m < items.len(),
    ensures
        encoder_after_items(fresh_encoder(), items, m) == (StreamEncoder {
            emitted_role: m > 0,
            finished: false,
        }),
        run_kinds(fresh_encoder(), items, m) == (if m > 0 {
            seq![EventKind::Role]
        } else {
            Seq::<EventKind>::empty()
        }) + delta_kinds(items, m),
    decreases m,
{
    if m <= 0 {
        assert(run_kinds(fresh_encoder(), items, m) =~= Seq::<EventKind>::empty()
            + delta_kinds(items, m));
    } else {
        lemma_kinds_before_the_end(items, m - 1);
        assert(items[m - 1] is Ok);
        assert(!items[m - 1]->Ok_0.done);
        assert(run_kinds(fresh_encoder(), items, m) =~= seq![EventKind::Role] + delta_kinds(
            items,
            m,
        ));
    }
}

/// The body of a streamed answer. Where the items that a client receives are
/// chunks of which the last, and only the last, is marked done, the client is
/// told, in this order: the role, once; the content of every chunk that has
/// any, in the order of the chunks; the finish reason; and the end marker,
/// once and last.
pub proof fn lemma_stream_body(items: Seq<StreamItem>)
    requires
        ends_with_done(items),
    ensures
        run_kinds(fresh_encoder(), items, items.len() as int) == seq![EventKind::Role]
            + delta_kinds(items, items.len() as int) + seq![
            EventKind::Finish(finish_reason_of(items.last()->Ok_0)),
            EventKind::Done,
        ],
        encoder_after_items(fresh_encoder(), items, items.len() as int).finished,
{
    let n = items.len() as int;
    lemma_kinds_before_the_end(items, n - 1);
    assert(items[n - 1] is Ok);
    assert(items[n - 1]->Ok_0.done);
    assert(run_kinds(fresh_encoder(), items, n) =~= seq![EventKind::Role] + delta_kinds(items, n)
        + seq![EventKind::Finish(finish_reason_of(items.last()->Ok_0)), EventKind::Done]);
}

/// Two clients of one stream are told the same. Let a stream be in flight
/// with `earlier` listening, let the first `j` of `items` be published, let a
/// second client join, and let the rest be published. If history and items
/// together are chunks that end with the one marked done, then both clients
/// have been handed that same sequence, replayed or sent, and each is told
/// the role, every content in publishing order (also what was published
/// before the second one joined), the finish reason and the end marker, once
/// and last.
pub proof fn lemma_late_joiner_stream_body(
    streams: Map<Seq<char>, StreamState>,
    key: Seq<char>,
    earlier: usize,
    items: Seq<StreamItem>,
    j: int,
)
    requires
        streams.contains_key(key),
        earlier < streams[key].subscribers.len() < usize::MAX,
        streams[key].subscribers[earlier as int],
        0 <= j < items.len(),
        ends_with_done(streams[key].history + items),
    ensures
        ({
            let at_join = streams_after_items(streams, key, items, j);
            let joined = streams_after_join(at_join, key);
            let newcomer = streams[key].subscribers.len() as usize;
            let rest = items.subrange(j, items.len() as int);
            let whole = streams[key].history + items;
            let replayed_and_sent = joined[key].history + items_sent_to(
                joined,
                key,
                newcomer,
                rest,
                rest.len() as int,
            );
            let handed_to_earlier = streams[key].history + items_sent_to(
                streams,
                key,
                earlier,
                items,
                j,
            ) + items_sent_to(joined, key, earlier, rest, rest.len() as int);
            &&& replayed_and_sent == whole
            &&& handed_to_earlier == whole
            &&& run_kinds(fresh_encoder(), replayed_and_sent, whole.len() as int) == seq![
                EventKind::Role,
            ] + delta_kinds(whole, whole.len() as int) + seq![
                EventKind::Finish(finish_reason_of(items.last()->Ok_0)),
                EventKind::Done,
            ]
        }),
{
    let history = streams[key].history;
    let whole = history + items;
    assert(is_open(history)) by {
        assert forall|i: int| 0 <= i < history.len() implies !is_terminal(
            #[trigger] history[i],
        ) by {
            assert(whole[i] == history[i]);
            assert(whole[i] is Ok);
            assert(!whole[i]->Ok_0.done);
        }
    }
    assert forall|k: int| 0 <= k < items.len() - 1 implies !is_terminal(#[trigger] items[k]) by {
        assert(whole[history.len() + k] == items[k]);
        assert(whole[history.len() + k] is Ok);
        assert(!whole[history.len() + k]->Ok_0.done);
    }
    lemma_late_joiner_catches_up(streams, key, earlier, items, j);
    lemma_stream_body(whole);
    assert(whole.last() == items.last());
}

} // verus!
