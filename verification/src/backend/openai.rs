//! The rules of the provider adapter that need no network: how a reply
//! becomes a response, how an HTTP failure is classified, and how the lines
//! of an event stream become chunks.

use vstd::prelude::*;
use vstd::string::*;
use crate::backend::mock::{estimate_usage, estimated_usage};
use crate::backend::BackendError;
use crate::models::{BackendChatResponse, BackendChunk, NormalizedChatRequest, Usage};
use crate::text::{decimal, trim, trimmed, u64_to_decimal};

verus! {

/// One choice of a reply, or of a stream event.
#[derive(Debug)]
pub struct UpstreamChoice {
    pub content: Option<String>,
    pub finish_reason: Option<String>,
}

/// A decoded reply, or one decoded event of a stream.
#[derive(Debug)]
pub struct UpstreamReply {
    pub choices: Vec<UpstreamChoice>,
    pub usage: Option<Usage>,
}

/// The first `n` characters of a text (all of it when shorter).
pub open spec fn first_chars(s: Seq<char>, n: int) -> Seq<char> {
    if s.len() <= n {
        s
    } else {
        s.subrange(0, n)
    }
}

/// The text that reports an HTTP failure: a label for its class, then the
/// first 400 characters of the body.
pub open spec fn http_error_text(status: u16, body: Seq<char>) -> Seq<char> {
    if status == 429 {
        "rate limited: "@ + first_chars(body, 400)
    } else if status == 408 || status == 504 {
        "upstream timeout: "@ + first_chars(body, 400)
    } else {
        "status "@ + decimal(status as nat) + ": "@ + first_chars(body, 400)
    }
}

/// Classifies an HTTP failure: 429 is unavailability, 408 and 504 are
/// timeouts, anything else is an invalid response.
pub fn map_http_error(status: u16, body: &str) -> (error: BackendError)
    ensures
        match error {
            BackendError::Unavailable(text) => status == 429 && text@ == http_error_text(
                status,
                body@,
            ),
            BackendError::Timeout(text) => (status == 408 || status == 504) && text@
                == http_error_text(status, body@),
            BackendError::InvalidResponse(text) => status != 429 && status != 408 && status != 504
                && text@ == http_error_text(status, body@),
        },
{
    let n: usize = body.unicode_len();
    let head = if n <= 400 {
        body
    } else {
        body.substring_char(0, 400)
    };
    if status == 429 {
        BackendError::Unavailable(String::from_str("rate limited: ").concat(head))
    } else if status == 408 || status == 504 {
        BackendError::Timeout(String::from_str("upstream timeout: ").concat(head))
    } else {
        let mut text = String::from_str("status ");
        text.append(u64_to_decimal(status as u64).as_str());
        text.append(": ");
        text.append(head);
        assert(text@ =~= http_error_text(status, body@));
        BackendError::InvalidResponse(text)
    }
}

/// Index of the first character at or after `i` that is not a slash.
pub open spec fn skip_slashes(s: Seq<char>, i: int) -> int
    decreases s.len() - i,
{
    if 0 <= i < s.len() && s[i] == '/' {
        skip_slashes(s, i + 1)
    } else {
        i
    }
}

/// The address of a path under a base: base, one slash, and the path without
/// its leading slashes.
pub open spec fn url_of(base_url: Seq<char>, path: Seq<char>) -> Seq<char> {
    base_url + "/"@ + path.subrange(skip_slashes(path, 0), path.len() as int)
}

pub fn endpoint_url(base_url: &str, path: &str) -> (url: String)
    ensures
        url@ == url_of(base_url@, path@),
{
    let n: usize = path.unicode_len();
    let mut i: usize = 0;
    while i < n && path.get_char(i) == '/'
        invariant
            n == path@.len(),
            i <= n,
            skip_slashes(path@, i as int) == skip_slashes(path@, 0),
        decreases n - i,
    {
        i += 1;
    }
    let mut url = base_url.to_owned();
    url.append("/");
    url.append(path.substring_char(i, n));
    url
}

/// The text of an optional field, or a default where it is absent.
pub open spec fn text_or(value: Option<String>, default: Seq<char>) -> Seq<char> {
    match value {
        Some(text) => text@,
        None => default,
    }
}

fn unwrap_text_or(value: &Option<String>, default: &str) -> (text: String)
    ensures
        text@ == text_or(*value, default@),
{
    match value {
        Some(text) => text.clone(),
        None => default.to_owned(),
    }
}

/// A reported usage with its total made consistent: the two counts as they
/// are, and their capped sum as the total.
pub open spec fn consistent_usage(reported: Usage) -> Usage {
    Usage {
        prompt_tokens: reported.prompt_tokens,
        completion_tokens: reported.completion_tokens,
        total_tokens: crate::models::saturating_total(
            reported.prompt_tokens,
            reported.completion_tokens,
        ),
    }
}

/// The usage that goes with a reply: the reported counts with a consistent
/// total.
pub fn usage_from_report(reported: &Usage) -> (usage: Usage)
    ensures
        usage == consistent_usage(*reported),
        usage.consistent(),
{
    Usage::new(reported.prompt_tokens, reported.completion_tokens)
}

/// Turns a decoded reply into a response: the content of the first choice
/// (empty where it has none), its finish reason (`stop` where it names none)
/// and the reported token counts, or an estimate where none are reported; the
/// total is always the capped sum of the two counts. A reply without choices
/// is an invalid response.
pub fn response_from_reply(request: &NormalizedChatRequest, reply: &UpstreamReply) -> (result: Result<
    BackendChatResponse,
    BackendError,
>)
    ensures
        match result {
            Ok(response) => {
                &&& reply.choices@.len() > 0
                &&& response.content@ == text_or(reply.choices@[0].content, Seq::<char>::empty())
                &&& response.finish_reason@ == text_or(reply.choices@[0].finish_reason, "stop"@)
                &&& response.usage == (match reply.usage {
                    Some(usage) => consistent_usage(usage),
                    None => estimated_usage(request, response.content@),
                })
                &&& response.usage.consistent()
            },
            Err(BackendError::InvalidResponse(text)) => reply.choices@.len() == 0 && text@
                == "missing choices in response"@,
            Err(_) => false,
        },
{
    if reply.choices.len() == 0 {
        return Err(BackendError::InvalidResponse("missing choices in response".to_owned()));
    }
    let choice = &reply.choices[0];
    let content = unwrap_text_or(&choice.content, "");
    proof {
        reveal_strlit("");
        assert(""@ =~= Seq::<char>::empty());
    }
    let usage = match &reply.usage {
        Some(usage) => usage_from_report(usage),
        None => estimate_usage(request, content.as_str()),
    };
    Ok(
        BackendChatResponse {
            content,
            finish_reason: unwrap_text_or(&choice.finish_reason, "stop"),
            usage,
        },
    )
}

/// What a line of an event stream stands for.
#[derive(Debug)]
pub enum SseLine {
    /// Nothing: an empty line, or one that is no `data:` line.
    Skip,
    /// The end marker `[DONE]`.
    Done,
    /// A payload to decode.
    Payload(String),
}

/// The five characters that open a data line.
pub open spec fn data_prefix() -> Seq<char> {
    seq!['d', 'a', 't', 'a', ':']
}

/// The six characters of the end marker.
pub open spec fn done_marker() -> Seq<char> {
    seq!['[', 'D', 'O', 'N', 'E', ']']
}

/// Whether a trimmed line is a data line.
pub open spec fn is_data_line(line: Seq<char>) -> bool {
    line.len() >= 5 && line.subrange(0, 5) == data_prefix()
}

/// The payload of a data line: what follows the prefix, trimmed.
pub open spec fn payload_of(line: Seq<char>) -> Seq<char> {
    trimmed(line.subrange(5, line.len() as int))
}

/// Reads one line of an event stream. The line is trimmed first; a data line
/// yields its trimmed payload, or the end of the stream where the payload is
/// the end marker.
pub fn classify_line(line: &str) -> (kind: SseLine)
    ensures
        match kind {
            SseLine::Skip => !is_data_line(trimmed(line@)),
            SseLine::Done => is_data_line(trimmed(line@)) && payload_of(trimmed(line@))
                == done_marker(),
            SseLine::Payload(payload) => is_data_line(trimmed(line@)) && payload@ == payload_of(
                trimmed(line@),
            ) && payload@ != done_marker(),
        },
{
    let text = trim(line);
    let n: usize = text.unicode_len();
    if n < 5 {
        return SseLine::Skip;
    }
    if !(text.get_char(0) == 'd' && text.get_char(1) == 'a' && text.get_char(2) == 't'
        && text.get_char(3) == 'a' && text.get_char(4) == ':') {
        assert(text@.subrange(0, 5)[0] == text@[0]);
        assert(text@.subrange(0, 5)[1] == text@[1]);
        assert(text@.subrange(0, 5)[2] == text@[2]);
        assert(text@.subrange(0, 5)[3] == text@[3]);
        assert(text@.subrange(0, 5)[4] == text@[4]);
        return SseLine::Skip;
    }
    assert(text@.subrange(0, 5) =~= data_prefix());
    let payload = trim(text.substring_char(5, n));
    let m: usize = payload.unicode_len();
    if m == 6 && payload.get_char(0) == '[' && payload.get_char(1) == 'D' && payload.get_char(2)
        == 'O' && payload.get_char(3) == 'N' && payload.get_char(4) == 'E' && payload.get_char(5)
        == ']' {
        assert(payload@ =~= done_marker());
        SseLine::Done
    } else {
        SseLine::Payload(payload.to_owned())
    }
}

/// Index of the first line feed at or after `i`, or the length of the text
/// where there is none.
pub open spec fn line_end(s: Seq<char>, i: int) -> int
    decreases s.len() - i,
{
    if 0 <= i < s.len() && s[i] != '\n' {
        line_end(s, i + 1)
    } else {
        i
    }
}

/// One item of an upstream stream: a chunk, or the error that ended it.
pub type UpstreamItem = Result<BackendChunk, BackendError>;

/// An item ends its stream when it is an error or a chunk marked done.
pub open spec fn ends_stream(item: UpstreamItem) -> bool {
    match item {
        Ok(chunk) => chunk.done,
        Err(_) => true,
    }
}

/// Nothing follows the item that ends a stream: an item that ends it is last.
pub open spec fn well_ended(items: Seq<UpstreamItem>) -> bool {
    forall|i: int| 0 <= i < items.len() && ends_stream(#[trigger] items[i]) ==> i == items.len() - 1
}

/// Whether a stream has ended: its last item ends it.
pub open spec fn has_ended(items: Seq<UpstreamItem>) -> bool {
    items.len() > 0 && ends_stream(items.last())
}

/// What every step of the decoder keeps to: once the stream has ended it
/// yields nothing more; only the last item of a step can end the stream; and
/// the stream has ended after the step exactly when it had before or the
/// step's last item ended it.
pub open spec fn decoder_step(ended_before: bool, out: Seq<UpstreamItem>, ended_after: bool) -> bool {
    &&& ended_before ==> out.len() == 0
    &&& forall|k: int| 0 <= k < out.len() - 1 ==> !ends_stream(#[trigger] out[k])
    &&& ended_after == (ended_before || has_ended(out))
}

/// The decoder of one upstream event stream: the text not yet split into
/// lines, the usage reported so far, and whether the stream has ended (its
/// closing chunk or an error went out).
#[derive(Debug)]
pub struct SseDecoder {
    pub buffer: String,
    pub final_usage: Option<Usage>,
    pub ended: bool,
}

/// The closing chunk with the given finish reason and usage.
pub open spec fn is_closing_chunk(item: UpstreamItem, reason: Seq<char>, usage: Option<Usage>) -> bool {
    &&& item is Ok
    &&& item->Ok_0.done
    &&& item->Ok_0.delta is None
    &&& item->Ok_0.finish_reason is Some
    &&& item->Ok_0.finish_reason->Some_0@ == reason
    &&& item->Ok_0.usage == usage
}

/// A content chunk.
pub open spec fn is_content_chunk(item: UpstreamItem, content: Seq<char>) -> bool {
    &&& item is Ok
    &&& !item->Ok_0.done
    &&& item->Ok_0.delta is Some
    &&& item->Ok_0.delta->Some_0@ == content
    &&& item->Ok_0.finish_reason is None
    &&& item->Ok_0.usage is None
}

/// The content that an event carries: the text of its first choice, where it
/// has one that is not empty.
pub open spec fn event_content(event: UpstreamReply) -> Option<Seq<char>> {
    if event.choices@.len() > 0 && event.choices@[0].content is Some
        && event.choices@[0].content->Some_0@.len() > 0 {
        Some(event.choices@[0].content->Some_0@)
    } else {
        None
    }
}

/// The finish reason that an event names, if any.
pub open spec fn event_finish(event: UpstreamReply) -> Option<Seq<char>> {
    if event.choices@.len() > 0 && event.choices@[0].finish_reason is Some {
        Some(event.choices@[0].finish_reason->Some_0@)
    } else {
        None
    }
}

/// The usage kept after an event: the event's own, made consistent, or the
/// one kept before.
pub open spec fn usage_after(kept: Option<Usage>, event: UpstreamReply) -> Option<Usage> {
    match event.usage {
        Some(usage) => Some(consistent_usage(usage)),
        None => kept,
    }
}

impl SseDecoder {
    /// A decoder that has read nothing.
    pub fn new() -> (decoder: Self)
        ensures
            decoder.buffer@.len() == 0,
            decoder.final_usage is None,
            !decoder.ended,
    {
        SseDecoder { buffer: String::new(), final_usage: None, ended: false }
    }

    /// Takes in text that arrived.
    pub fn push_text(&mut self, text: &str)
        ensures
            final(self).buffer@ == old(self).buffer@ + text@,
            final(self).final_usage == old(self).final_usage,
            final(self).ended == old(self).ended,
    {
        self.buffer.append(text);
    }

    /// Takes the first complete line out of the buffer, without its line
    /// feed; there is none while no line feed has arrived.
    pub fn next_line(&mut self) -> (line: Option<String>)
        ensures
            final(self).final_usage == old(self).final_usage,
            final(self).ended == old(self).ended,
            ({
                let end = line_end(old(self).buffer@, 0);
                if end < old(self).buffer@.len() {
                    &&& line is Some
                    &&& line->Some_0@ == old(self).buffer@.subrange(0, end)
                    &&& final(self).buffer@ == old(self).buffer@.subrange(
                        end + 1,
                        old(self).buffer@.len() as int,
                    )
                } else {
                    line is None && final(self).buffer@ == old(self).buffer@
                }
            }),
    {
        let n: usize = self.buffer.as_str().unicode_len();
        let mut i: usize = 0;
        while i < n && self.buffer.as_str().get_char(i) != '\n'
            invariant
                self.buffer@ == old(self).buffer@,
                self.final_usage == old(self).final_usage,
                self.ended == old(self).ended,
                n == self.buffer@.len(),
                i <= n,
                line_end(self.buffer@, i as int) == line_end(self.buffer@, 0),
            decreases n - i,
        {
            i += 1;
        }
        if i == n {
            return None;
        }
        let line = self.buffer.as_str().substring_char(0, i).to_owned();
        let rest = self.buffer.as_str().substring_char(i + 1, n).to_owned();
        self.buffer = rest;
        Some(line)
    }

    /// The end marker arrived: the closing chunk goes out, with the finish
    /// reason `stop` and the usage kept so far, unless the stream has ended.
    pub fn on_done_marker(&mut self) -> (items: Vec<UpstreamItem>)
        ensures
            final(self).buffer == old(self).buffer,
            final(self).final_usage == old(self).final_usage,
            final(self).ended,
            decoder_step(old(self).ended, items@, final(self).ended),
            !old(self).ended ==> items@.len() == 1 && is_closing_chunk(
                items@[0],
                "stop"@,
                old(self).final_usage,
            ),
    {
        let mut items: Vec<UpstreamItem> = Vec::new();
        if !self.ended {
            self.ended = true;
            items.push(
                Ok(
                    BackendChunk {
                        delta: None,
                        finish_reason: Some("stop".to_owned()),
                        usage: self.final_usage,
                        done: true,
                    },
                ),
            );
        }
        items
    }

    /// The upstream closed: the same as the end marker.
    pub fn on_end(&mut self) -> (items: Vec<UpstreamItem>)
        ensures
            final(self).buffer == old(self).buffer,
            final(self).final_usage == old(self).final_usage,
            final(self).ended,
            decoder_step(old(self).ended, items@, final(self).ended),
            !old(self).ended ==> items@.len() == 1 && is_closing_chunk(
                items@[0],
                "stop"@,
                old(self).final_usage,
            ),
    {
        self.on_done_marker()
    }

    /// Reading failed (the transport broke, or what arrived could not be
    /// decoded): the error goes out and ends the stream, unless the stream
    /// has ended.
    pub fn on_failure(&mut self, error: BackendError) -> (items: Vec<UpstreamItem>)
        ensures
            final(self).buffer == old(self).buffer,
            final(self).final_usage == old(self).final_usage,
            final(self).ended,
            decoder_step(old(self).ended, items@, final(self).ended),
            !old(self).ended ==> items@.len() == 1 && items@[0] == Err::<
                BackendChunk,
                BackendError,
            >(error),
    {
        let mut items: Vec<UpstreamItem> = Vec::new();
        if !self.ended {
            self.ended = true;
            items.push(Err(error));
        }
        items
    }

    /// A decoded event arrived. Once the stream has ended it is ignored.
    /// Otherwise its usage, if it has one, is kept for the closing chunk, and
    /// its first choice yields a content chunk where it has content, then the
    /// closing chunk where it names a finish reason.
    pub fn on_event(&mut self, event: &UpstreamReply) -> (items: Vec<UpstreamItem>)
        ensures
            final(self).buffer == old(self).buffer,
            decoder_step(old(self).ended, items@, final(self).ended),
            old(self).ended ==> final(self).final_usage == old(self).final_usage,
            !old(self).ended ==> {
                let first = if event_content(*event) is Some {
                    1int
                } else {
                    0int
                };
                &&& final(self).final_usage == usage_after(old(self).final_usage, *event)
                &&& final(self).ended == (event_finish(*event) is Some)
                &&& items@.len() == first + (if event_finish(*event) is Some {
                    1int
                } else {
                    0int
                })
                &&& event_content(*event) is Some ==> is_content_chunk(
                    items@[0],
                    event_content(*event)->Some_0,
                )
                &&& event_finish(*event) is Some ==> is_closing_chunk(
                    items@[first],
                    event_finish(*event)->Some_0,
                    final(self).final_usage,
                )
            },
    {
        let mut items: Vec<UpstreamItem> = Vec::new();
        if self.ended {
            return items;
        }
        match &event.usage {
            Some(usage) => {
                self.final_usage = Some(usage_from_report(usage));
            },
            None => {},
        }
        if event.choices.len() > 0 {
            let choice = &event.choices[0];
            match &choice.content {
                Some(content) => {
                    if content.as_str().unicode_len() > 0 {
                        items.push(
                            Ok(
                                BackendChunk {
                                    delta: Some(content.clone()),
                                    finish_reason: None,
                                    usage: None,
                                    done: false,
                                },
                            ),
                        );
                    }
                },
                None => {},
            }
            match &choice.finish_reason {
                Some(reason) => {
                    items.push(
                        Ok(
                            BackendChunk {
                                delta: None,
                                finish_reason: Some(reason.clone()),
                                usage: self.final_usage,
                                done: true,
                            },
                        ),
                    );
                    self.ended = true;
                },
                None => {},
            }
        }
        items
    }
}

/// Whatever arrives, nothing follows the item that ends the stream: if that
/// held of what a decoder yielded so far, it holds after one more step, and
/// the decoder knows whether the stream has ended. Since the upstream's
/// closing always ends the stream, a stream that was read to its end holds
/// exactly one ending item, and holds it last.
pub proof fn lemma_nothing_follows_the_end(
    before: Seq<UpstreamItem>,
    ended_before: bool,
    out: Seq<UpstreamItem>,
    ended_after: bool,
)
    requires
        well_ended(before),
        ended_before == has_ended(before),
        decoder_step(ended_before, out, ended_after),
    ensures
        well_ended(before + out),
        ended_after == has_ended(before + out),
{
    let all = before + out;
    if out.len() == 0 {
        assert(all =~= before);
    } else {
        assert(all.last() == out.last());
        assert forall|i: int| 0 <= i < all.len() && ends_stream(#[trigger] all[i]) implies i
            == all.len() - 1 by {
            if i < before.len() {
                assert(all[i] == before[i]);
            } else {
                assert(all[i] == out[i - before.len()]);
            }
        }
    }
}

} // verus!
