//! In-flight coalescing: at most one upstream execution per fingerprint, for
//! one-shot requests and for streams with replay.
//!
//! The coalescer owns the bookkeeping. The caller owns the channels: it hands
//! in a waiter for a one-shot request and gets the waiters back to answer
//! them; for a stream it is told which subscribers an item goes to.

use vstd::prelude::*;
use vstd::string::*;
use crate::backend::BackendError;
use crate::models::{BackendChatResponse, BackendChunk};
use crate::table::KeyedTable;

verus! {

#[derive(Debug, Clone, Copy, PartialEq, Eq, Structural)]
pub enum CoalesceOutcome {
    Leader,
    Joined,
}

/// One item of a stream: a chunk, or the text of an error.
pub type StreamItem = Result<BackendChunk, String>;

/// An item ends its stream when it is an error or a chunk marked done.
pub open spec fn is_terminal(item: StreamItem) -> bool {
    match item {
        Ok(chunk) => chunk.done,
        Err(_) => true,
    }
}

pub fn is_terminal_item(item: &StreamItem) -> (r: bool)
    ensures
        r == is_terminal(*item),
{
    match item {
        Ok(chunk) => chunk.done,
        Err(_) => true,
    }
}

/// Copies a stream item.
pub fn clone_stream_item(item: &StreamItem) -> (r: StreamItem)
    ensures
        r == *item,
{
    match item {
        Ok(chunk) => Ok(chunk.clone()),
        Err(message) => Err(message.clone()),
    }
}

/// What a one-shot request is told on arrival: whether it leads, and the
/// waiter it brought if that was not needed.
#[derive(Debug)]
pub struct Admission<W> {
    pub outcome: CoalesceOutcome,
    pub unused: Option<W>,
}

/// A stream in flight: the items published so far, and for each subscriber
/// (numbered in joining order) whether it is still listening.
#[derive(Debug)]
pub struct StreamEntry {
    pub history: Vec<StreamItem>,
    pub subscribers: Vec<bool>,
}

/// The state of a stream in flight.
pub struct StreamState {
    pub history: Seq<StreamItem>,
    pub subscribers: Seq<bool>,
}

impl View for StreamEntry {
    type V = StreamState;

    open spec fn view(&self) -> StreamState {
        StreamState { history: self.history@, subscribers: self.subscribers@ }
    }
}

/// What a stream joiner is told: whether it leads, its subscriber number,
/// and the items published before it joined.
#[derive(Debug)]
pub struct StreamJoin {
    pub is_leader: bool,
    pub subscriber: usize,
    pub replay: Vec<StreamItem>,
}

/// A history is open while it holds no terminal item.
pub open spec fn is_open(history: Seq<StreamItem>) -> bool {
    forall|i: int| 0 <= i < history.len() ==> !is_terminal(#[trigger] history[i])
}

/// The subscribers among the first `n` that are still listening, in joining order.
pub open spec fn live_ids(subscribers: Seq<bool>, n: int) -> Seq<usize>
    decreases n,
{
    if n <= 0 {
        Seq::<usize>::empty()
    } else if subscribers[n - 1] {
        live_ids(subscribers, n - 1).push((n - 1) as usize)
    } else {
        live_ids(subscribers, n - 1)
    }
}

/// Waiter lists after a request for `key` arrived with `waiter`: a new, empty
/// list where the key was absent, the waiter appended where it was present.
pub open spec fn waiters_after_join<W>(
    waiters: Map<Seq<char>, Seq<W>>,
    key: Seq<char>,
    waiter: W,
) -> Map<Seq<char>, Seq<W>> {
    if waiters.contains_key(key) {
        waiters.insert(key, waiters[key].push(waiter))
    } else {
        waiters.insert(key, Seq::<W>::empty())
    }
}

/// The role of a request for `key` that arrives at these waiter lists.
pub open spec fn outcome_of_join<W>(waiters: Map<Seq<char>, Seq<W>>, key: Seq<char>) -> CoalesceOutcome {
    if waiters.contains_key(key) {
        CoalesceOutcome::Joined
    } else {
        CoalesceOutcome::Leader
    }
}

/// Streams after a request for `key` joined.
pub open spec fn streams_after_join(
    streams: Map<Seq<char>, StreamState>,
    key: Seq<char>,
) -> Map<Seq<char>, StreamState> {
    if streams.contains_key(key) {
        streams.insert(
            key,
            StreamState {
                history: streams[key].history,
                subscribers: streams[key].subscribers.push(true),
            },
        )
    } else {
        streams.insert(
            key,
            StreamState { history: Seq::<StreamItem>::empty(), subscribers: seq![true] },
        )
    }
}

/// Streams after `item` was published under `key`: appended to the history,
/// and the stream gone from the table if the item is terminal. Publishing
/// under an absent key changes nothing.
pub open spec fn streams_after_publish(
    streams: Map<Seq<char>, StreamState>,
    key: Seq<char>,
    item: StreamItem,
) -> Map<Seq<char>, StreamState> {
    if !streams.contains_key(key) {
        streams
    } else if is_terminal(item) {
        streams.remove(key)
    } else {
        streams.insert(
            key,
            StreamState {
                history: streams[key].history.push(item),
                subscribers: streams[key].subscribers,
            },
        )
    }
}

/// The subscribers that receive an item published under `key`.
pub open spec fn recipients_of(streams: Map<Seq<char>, StreamState>, key: Seq<char>) -> Seq<usize> {
    if streams.contains_key(key) {
        live_ids(streams[key].subscribers, streams[key].subscribers.len() as int)
    } else {
        Seq::<usize>::empty()
    }
}

/// Streams after a subscriber stopped listening.
pub open spec fn streams_after_drop(
    streams: Map<Seq<char>, StreamState>,
    key: Seq<char>,
    subscriber: usize,
) -> Map<Seq<char>, StreamState> {
    if streams.contains_key(key) && subscriber < streams[key].subscribers.len() {
        streams.insert(
            key,
            StreamState {
                history: streams[key].history,
                subscribers: streams[key].subscribers.update(subscriber as int, false),
            },
        )
    } else {
        streams
    }
}

pub struct InflightCoalescer<W> {
    inflight: KeyedTable<Vec<W>>,
    stream_inflight: KeyedTable<StreamEntry>,
}

impl<W> InflightCoalescer<W> {
    /// The waiters of each one-shot request in flight, in arrival order.
    pub closed spec fn waiters(&self) -> Map<Seq<char>, Seq<W>> {
        self.inflight@.map_values(|list: Vec<W>| list@)
    }

    /// The streams in flight.
    pub closed spec fn streams(&self) -> Map<Seq<char>, StreamState> {
        self.stream_inflight@.map_values(|entry: StreamEntry| entry@)
    }

    /// The tables are sound and every stream in flight is open.
    pub closed spec fn wf(&self) -> bool {
        &&& self.inflight.wf()
        &&& self.stream_inflight.wf()
        &&& forall|key: Seq<char>| #[trigger]
            self.stream_inflight@.contains_key(key) ==> is_open(self.stream_inflight@[key]@.history)
    }

    /// Every stream in flight is open: a terminal item takes its stream off the table.
    pub proof fn lemma_streams_open(&self, key: Seq<char>)
        requires
            self.wf(),
            self.streams().contains_key(key),
        ensures
            is_open(self.streams()[key].history),
    {
        assert(self.stream_inflight@.contains_key(key));
    }

    /// A coalescer with nothing in flight.
    pub fn new() -> (coalescer: Self)
        ensures
            coalescer.wf(),
            coalescer.waiters() == Map::<Seq<char>, Seq<W>>::empty(),
            coalescer.streams() == Map::<Seq<char>, StreamState>::empty(),
    {
        let coalescer = InflightCoalescer {
            inflight: KeyedTable::new(),
            stream_inflight: KeyedTable::new(),
        };
        assert(coalescer.waiters() =~= Map::<Seq<char>, Seq<W>>::empty());
        assert(coalescer.streams() =~= Map::<Seq<char>, StreamState>::empty());
        coalescer
    }

    /// Registers a one-shot request for `key`. The first request of an epoch
    /// leads and keeps its waiter; every later one joins and leaves its
    /// waiter in the list.
    pub fn execute_or_join(&mut self, key: String, waiter: W) -> (admission: Admission<W>)
        requires
            old(self).wf(),
        ensures
            final(self).wf(),
            final(self).streams() == old(self).streams(),
            final(self).waiters() == waiters_after_join(old(self).waiters(), key@, waiter),
            admission.outcome == outcome_of_join(old(self).waiters(), key@),
            admission.unused == (if admission.outcome == CoalesceOutcome::Leader {
                Some(waiter)
            } else {
                None
            }),
    {
        match self.inflight.remove(key.as_str()) {
            Some(mut list) => {
                list.push(waiter);
                self.inflight.insert(key, list);
                assert(self.waiters() =~= waiters_after_join(old(self).waiters(), key@, waiter));
                Admission { outcome: CoalesceOutcome::Joined, unused: None }
            },
            None => {
                self.inflight.insert(key, Vec::new());
                assert(self.waiters() =~= waiters_after_join(old(self).waiters(), key@, waiter));
                Admission { outcome: CoalesceOutcome::Leader, unused: Some(waiter) }
            },
        }
    }

    /// Ends the epoch of `key`: the entry leaves the table and its waiters
    /// are handed out, in arrival order, to be answered.
    pub fn complete(&mut self, key: &str) -> (waiters: Vec<W>)
        requires
            old(self).wf(),
        ensures
            final(self).wf(),
            final(self).streams() == old(self).streams(),
            final(self).waiters() == old(self).waiters().remove(key@),
            waiters@ == (if old(self).waiters().contains_key(key@) {
                old(self).waiters()[key@]
            } else {
                Seq::<W>::empty()
            }),
    {
        let removed = self.inflight.remove(key);
        assert(self.waiters() =~= old(self).waiters().remove(key@));
        match removed {
            Some(list) => list,
            None => Vec::new(),
        }
    }

    /// Joins the stream of `key`, creating it if there is none. The joiner
    /// becomes a subscriber and is handed everything published so far.
    pub fn join_or_create_stream(&mut self, key: String) -> (join: StreamJoin)
        requires
            old(self).wf(),
        ensures
            final(self).wf(),
            final(self).waiters() == old(self).waiters(),
            final(self).streams() == streams_after_join(old(self).streams(), key@),
            join.is_leader == !old(self).streams().contains_key(key@),
            old(self).streams().contains_key(key@) ==> join.replay@ == old(self).streams()[key@].history
                && join.subscriber == old(self).streams()[key@].subscribers.len(),
            !old(self).streams().contains_key(key@) ==> join.replay@.len() == 0 && join.subscriber
                == 0,
    {
        match self.stream_inflight.remove(key.as_str()) {
            Some(mut entry) => {
                let subscriber = entry.subscribers.len();
                let replay = clone_history(&entry.history);
                entry.subscribers.push(true);
                proof {
                    assert(old(self).stream_inflight@.contains_key(key@));
                }
                self.stream_inflight.insert(key, entry);
                assert(self.streams() =~= streams_after_join(old(self).streams(), key@));
                StreamJoin { is_leader: false, subscriber, replay }
            },
            None => {
                let mut subscribers: Vec<bool> = Vec::new();
                subscribers.push(true);
                let entry = StreamEntry { history: Vec::new(), subscribers };
                self.stream_inflight.insert(key, entry);
                assert(self.streams() =~= streams_after_join(old(self).streams(), key@));
                StreamJoin { is_leader: true, subscriber: 0, replay: Vec::new() }
            },
        }
    }

    /// Publishes `item` on the stream of `key` and names the subscribers it
    /// goes to. A terminal item ends the epoch: the stream leaves the table.
    pub fn publish_stream_item(&mut self, key: &str, item: StreamItem) -> (recipients: Vec<usize>)
        requires
            old(self).wf(),
        ensures
            final(self).wf(),
            final(self).waiters() == old(self).waiters(),
            final(self).streams() == streams_after_publish(old(self).streams(), key@, item),
            recipients@ == recipients_of(old(self).streams(), key@),
    {
        match self.stream_inflight.remove(key) {
            Some(mut entry) => {
                proof {
                    assert(old(self).stream_inflight@.contains_key(key@));
                }
                let recipients = live_subscribers(&entry.subscribers);
                if is_terminal_item(&item) {
                    assert(self.streams() =~= streams_after_publish(
                        old(self).streams(),
                        key@,
                        item,
                    ));
                } else {
                    entry.history.push(item);
                    self.stream_inflight.insert(key.to_owned(), entry);
                    assert(self.streams() =~= streams_after_publish(
                        old(self).streams(),
                        key@,
                        item,
                    ));
                }
                recipients
            },
            None => {
                assert(self.streams() =~= old(self).streams());
                Vec::new()
            },
        }
    }

    /// Marks a subscriber of the stream of `key` as gone, so that later items
    /// are no longer sent to it.
    pub fn drop_subscriber(&mut self, key: &str, subscriber: usize)
        requires
            old(self).wf(),
        ensures
            final(self).wf(),
            final(self).waiters() == old(self).waiters(),
            final(self).streams() == streams_after_drop(old(self).streams(), key@, subscriber),
    {
        match self.stream_inflight.remove(key) {
            Some(mut entry) => {
                proof {
                    assert(old(self).stream_inflight@.contains_key(key@));
                }
                if subscriber < entry.subscribers.len() {
                    entry.subscribers.set(subscriber, false);
                }
                self.stream_inflight.insert(key.to_owned(), entry);
                assert(self.streams() =~= streams_after_drop(
                    old(self).streams(),
                    key@,
                    subscriber,
                ));
            },
            None => {
                assert(self.streams() =~= old(self).streams());
            },
        }
    }
}

/// Copies a history, in order.
pub fn clone_history(history: &Vec<StreamItem>) -> (copy: Vec<StreamItem>)
    ensures
        copy@ == history@,
{
    let mut copy: Vec<StreamItem> = Vec::new();
    let mut i: usize = 0;
    while i < history.len()
        invariant
            i <= history@.len(),
            copy@ == history@.take(i as int),
        decreases history@.len() - i,
    {
        copy.push(clone_stream_item(&history[i]));
        assert(copy@ =~= history@.take(i + 1));
        i += 1;
    }
    assert(history@.take(history@.len() as int) =~= history@);
    copy
}

/// The subscribers that are still listening, in joining order.
pub fn live_subscribers(subscribers: &Vec<bool>) -> (ids: Vec<usize>)
    ensures
        ids@ == live_ids(subscribers@, subscribers@.len() as int),
{
    let mut ids: Vec<usize> = Vec::new();
    let mut i: usize = 0;
    while i < subscribers.len()
        invariant
            i <= subscribers@.len(),
            ids@ == live_ids(subscribers@, i as int),
        decreases subscribers@.len() - i,
    {
        if subscribers[i] {
            ids.push(i);
        }
        i += 1;
    }
    ids
}

/// What the leader's result looks like to its followers: the response
/// itself, or the description of the error.
pub open spec fn follower_view(leader_result: Result<BackendChatResponse, BackendError>) -> Result<
    BackendChatResponse,
    Seq<char>,
> {
    match leader_result {
        Ok(response) => Ok(response),
        Err(error) => Err(error.spec_describe()),
    }
}

/// The result that the leader broadcasts to its followers.
pub fn follower_result(leader_result: &Result<BackendChatResponse, BackendError>) -> (result: Result<
    BackendChatResponse,
    String,
>)
    ensures
        match result {
            Ok(response) => follower_view(*leader_result) == Ok::<BackendChatResponse, Seq<char>>(
                response,
            ),
            Err(message) => follower_view(*leader_result) == Err::<BackendChatResponse, Seq<char>>(
                message@,
            ),
        },
{
    match leader_result {
        Ok(response) => Ok(response.clone()),
        Err(error) => Err(error.describe()),
    }
}

/// What the leader itself returns.
pub fn leader_outcome(leader_result: Result<BackendChatResponse, BackendError>) -> (result: Result<
    (BackendChatResponse, CoalesceOutcome),
    BackendError,
>)
    ensures
        match leader_result {
            Ok(response) => result == Ok::<(BackendChatResponse, CoalesceOutcome), BackendError>(
                (response, CoalesceOutcome::Leader),
            ),
            Err(error) => result == Err::<(BackendChatResponse, CoalesceOutcome), BackendError>(
                error,
            ),
        },
{
    match leader_result {
        Ok(response) => Ok((response, CoalesceOutcome::Leader)),
        Err(error) => Err(error),
    }
}

/// What a follower returns for what it received; `None` stands for a leader
/// that went away without an answer.
pub fn joined_outcome(received: Option<Result<BackendChatResponse, String>>) -> (result: Result<
    (BackendChatResponse, CoalesceOutcome),
    BackendError,
>)
    ensures
        match received {
            Some(Ok(response)) => result == Ok::<
                (BackendChatResponse, CoalesceOutcome),
                BackendError,
            >((response, CoalesceOutcome::Joined)),
            Some(Err(message)) => result matches Err(BackendError::Unavailable(text)) && text
                == message,
            None => result matches Err(BackendError::Unavailable(text)) && text@
                == "leader dropped before completion"@,
        },
{
    match received {
        Some(Ok(response)) => Ok((response, CoalesceOutcome::Joined)),
        Some(Err(message)) => Err(BackendError::Unavailable(message)),
        None => Err(BackendError::Unavailable("leader dropped before completion".to_owned())),
    }
}

/// Of two requests for one key that overlap, the first leads and the second
/// joins; the second's waiter is the one the leader answers, and what it is
/// answered with is the leader's own response. Once the epoch is completed
/// the next request leads again.
pub proof fn lemma_one_leader_per_epoch<W>(
    waiters: Map<Seq<char>, Seq<W>>,
    key: Seq<char>,
    first: W,
    second: W,
    response: BackendChatResponse,
)
    requires
        !waiters.contains_key(key),
    ensures
        outcome_of_join(waiters, key) == CoalesceOutcome::Leader,
        outcome_of_join(waiters_after_join(waiters, key, first), key) == CoalesceOutcome::Joined,
        waiters_after_join(waiters_after_join(waiters, key, first), key, second)[key] == seq![second],
        follower_view(Ok(response)) == Ok::<BackendChatResponse, Seq<char>>(response),
        outcome_of_join(
            waiters_after_join(waiters_after_join(waiters, key, first), key, second).remove(key),
            key,
        ) == CoalesceOutcome::Leader,
{
    assert(Seq::<W>::empty().push(second) =~= seq![second]);
}

/// The streams after the first `n` of `items` were published under `key`.
pub open spec fn streams_after_items(
    streams: Map<Seq<char>, StreamState>,
    key: Seq<char>,
    items: Seq<StreamItem>,
    n: int,
) -> Map<Seq<char>, StreamState>
    decreases n,
{
    if n <= 0 {
        streams
    } else {
        streams_after_publish(streams_after_items(streams, key, items, n - 1), key, items[n - 1])
    }
}

/// Those of the first `n` of `items`, published under `key`, that went to
/// `subscriber`, in publishing order.
pub open spec fn items_sent_to(
    streams: Map<Seq<char>, StreamState>,
    key: Seq<char>,
    subscriber: usize,
    items: Seq<StreamItem>,
    n: int,
) -> Seq<StreamItem>
    decreases n,
{
    if n <= 0 {
        Seq::<StreamItem>::empty()
    } else if recipients_of(streams_after_items(streams, key, items, n - 1), key).contains(
        subscriber,
    ) {
        items_sent_to(streams, key, subscriber, items, n - 1).push(items[n - 1])
    } else {
        items_sent_to(streams, key, subscriber, items, n - 1)
    }
}

/// An epoch's items: the history, then those of the first `n` of `items` up
/// to and including the first terminal one.
pub open spec fn epoch_items(history: Seq<StreamItem>, items: Seq<StreamItem>, n: int) -> Seq<
    StreamItem,
>
    decreases n,
{
    if n <= 0 {
        history
    } else if is_open(epoch_items(history, items, n - 1)) {
        epoch_items(history, items, n - 1).push(items[n - 1])
    } else {
        epoch_items(history, items, n - 1)
    }
}

proof fn lemma_live_ids_contains(subscribers: Seq<bool>, n: int, subscriber: usize)
    requires
        0 <= n <= subscribers.len(),
        n <= usize::MAX,
    ensures
        live_ids(subscribers, n).contains(subscriber) <==> (subscriber < n
            && subscribers[subscriber as int]),
    decreases n,
{
    if n > 0 {
        lemma_live_ids_contains(subscribers, n - 1, subscriber);
        let prev = live_ids(subscribers, n - 1);
        if subscribers[n - 1] {
            let now = prev.push((n - 1) as usize);
            assert(now[now.len() - 1] == (n - 1) as usize);
            if prev.contains(subscriber) {
                let i = choose|i: int| 0 <= i < prev.len() && prev[i] == subscriber;
                assert(now[i] == subscriber);
            }
            if now.contains(subscriber) {
                let i = choose|i: int| 0 <= i < now.len() && now[i] == subscriber;
                if i < prev.len() {
                    assert(prev[i] == subscriber);
                }
            }
        }
    }
}

/// A subscriber that is listening is sent, after the replay it got on
/// joining, every item published from then on, in publishing order, up to and
/// including the terminal item and nothing after it. Replay and items
/// together are the epoch's items, whenever the subscriber joined; while the
/// stream is in flight its history is that same sequence.
pub proof fn lemma_subscriber_observes_epoch(
    streams: Map<Seq<char>, StreamState>,
    key: Seq<char>,
    subscriber: usize,
    items: Seq<StreamItem>,
    n: int,
)
    requires
        streams.contains_key(key),
        is_open(streams[key].history),
        subscriber < streams[key].subscribers.len() <= usize::MAX,
        streams[key].subscribers[subscriber as int],
        0 <= n <= items.len(),
    ensures
        streams[key].history + items_sent_to(streams, key, subscriber, items, n) == epoch_items(
            streams[key].history,
            items,
            n,
        ),
        streams_after_items(streams, key, items, n).contains_key(key) ==> streams_after_items(
            streams,
            key,
            items,
            n,
        )[key].history == epoch_items(streams[key].history, items, n),
        streams_after_items(streams, key, items, n).contains_key(key) <==> is_open(
            epoch_items(streams[key].history, items, n),
        ),
        streams_after_items(streams, key, items, n).contains_key(key) ==> streams_after_items(
            streams,
            key,
            items,
            n,
        )[key].subscribers == streams[key].subscribers,
    decreases n,
{
    let history = streams[key].history;
    if n <= 0 {
        assert(history + Seq::<StreamItem>::empty() =~= history);
    } else {
        lemma_subscriber_observes_epoch(streams, key, subscriber, items, n - 1);
        let before = streams_after_items(streams, key, items, n - 1);
        let sent = items_sent_to(streams, key, subscriber, items, n - 1);
        let epoch = epoch_items(history, items, n - 1);
        if before.contains_key(key) {
            lemma_live_ids_contains(
                before[key].subscribers,
                before[key].subscribers.len() as int,
                subscriber,
            );
            assert(history + sent.push(items[n - 1]) =~= (history + sent).push(items[n - 1]));
            let grown = epoch.push(items[n - 1]);
            if is_terminal(items[n - 1]) {
                assert(is_terminal(grown[grown.len() - 1]));
            } else {
                assert forall|i: int| 0 <= i < grown.len() implies !is_terminal(
                    #[trigger] grown[i],
                ) by {
                    if i < epoch.len() {
                        assert(grown[i] == epoch[i]);
                    }
                }
            }
        }
    }
}

/// Joining hands out the whole history so far and makes the joiner a
/// listening subscriber without touching the history.
pub proof fn lemma_join_replays_history(streams: Map<Seq<char>, StreamState>, key: Seq<char>)
    requires
        streams.contains_key(key),
    ensures
        ({
            let after = streams_after_join(streams, key);
            let joiner = streams[key].subscribers.len() as int;
            &&& after.contains_key(key)
            &&& after[key].history == streams[key].history
            &&& after[key].subscribers.len() == joiner + 1
            &&& after[key].subscribers[joiner]
        }),
{
}

/// While no terminal item is published, an epoch's items are the history
/// followed by what was published; a terminal item is taken in as well.
pub proof fn lemma_epoch_of_open_items(history: Seq<StreamItem>, items: Seq<StreamItem>, n: int)
    requires
        is_open(history),
        0 <= n <= items.len(),
        forall|k: int| 0 <= k < n - 1 ==> !is_terminal(#[trigger] items[k]),
    ensures
        epoch_items(history, items, n) == history + items.take(n),
        n > 0 ==> (is_open(epoch_items(history, items, n)) <==> !is_terminal(items[n - 1])),
    decreases n,
{
    if n <= 0 {
        assert(history + items.take(0) =~= history);
    } else {
        lemma_epoch_of_open_items(history, items, n - 1);
        let before = epoch_items(history, items, n - 1);
        assert(before == history + items.take(n - 1));
        assert(is_open(before)) by {
            assert forall|i: int| 0 <= i < before.len() implies !is_terminal(
                #[trigger] before[i],
            ) by {
                if i >= history.len() {
                    assert(before[i] == items[i - history.len()]);
                }
            }
        }
        let after = before.push(items[n - 1]);
        assert(after =~= history + items.take(n));
        if is_terminal(items[n - 1]) {
            assert(is_terminal(after[after.len() - 1]));
        } else {
            assert forall|i: int| 0 <= i < after.len() implies !is_terminal(#[trigger] after[i]) by {
                if i < before.len() {
                    assert(after[i] == before[i]);
                }
            }
        }
    }
}

/// A subscriber that joins late catches up. Let a stream be in flight with
/// `earlier` listening, let the first `j` of `items` be published, let a new
/// subscriber join, and let the rest of `items` be published. If only the
/// last of `items` is terminal, then the replay of the newcomer together with
/// what it is sent afterwards is the history followed by all of `items`, and
/// so is everything that `earlier` has been handed.
pub proof fn lemma_late_joiner_catches_up(
    streams: Map<Seq<char>, StreamState>,
    key: Seq<char>,
    earlier: usize,
    items: Seq<StreamItem>,
    j: int,
)
    requires
        streams.contains_key(key),
        is_open(streams[key].history),
        earlier < streams[key].subscribers.len() < usize::MAX,
        streams[key].subscribers[earlier as int],
        0 <= j < items.len(),
        forall|k: int| 0 <= k < items.len() - 1 ==> !is_terminal(#[trigger] items[k]),
    ensures
        ({
            let at_join = streams_after_items(streams, key, items, j);
            let joined = streams_after_join(at_join, key);
            let newcomer = streams[key].subscribers.len() as usize;
            let rest = items.subrange(j, items.len() as int);
            let whole = streams[key].history + items;
            &&& at_join.contains_key(key)
            &&& joined[key].history + items_sent_to(joined, key, newcomer, rest, rest.len() as int)
                == whole
            &&& streams[key].history + items_sent_to(streams, key, earlier, items, j)
                == joined[key].history
            &&& joined[key].history + items_sent_to(joined, key, earlier, rest, rest.len() as int)
                == whole
        }),
{
    let history = streams[key].history;
    let at_join = streams_after_items(streams, key, items, j);
    lemma_subscriber_observes_epoch(streams, key, earlier, items, j);
    lemma_epoch_of_open_items(history, items, j);
    assert(is_open(epoch_items(history, items, j))) by {
        if j > 0 {
            assert(!is_terminal(items[j - 1]));
        }
    }
    let joined = streams_after_join(at_join, key);
    let newcomer = streams[key].subscribers.len() as usize;
    let rest = items.subrange(j, items.len() as int);
    let m = rest.len() as int;
    assert forall|k: int| 0 <= k < m - 1 implies !is_terminal(#[trigger] rest[k]) by {
        assert(rest[k] == items[j + k]);
    }
    lemma_subscriber_observes_epoch(joined, key, newcomer, rest, m);
    lemma_subscriber_observes_epoch(joined, key, earlier, rest, m);
    lemma_epoch_of_open_items(joined[key].history, rest, m);
    assert(joined[key].history + rest.take(m) =~= history + items) by {
        assert(rest.take(m) =~= rest);
        assert(joined[key].history == history + items.take(j));
        assert(items.take(j) + rest =~= items);
    }
}

} // verus!
