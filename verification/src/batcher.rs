//! Micro-batching: submissions are grouped by generation-parameter class
//! into batches of bounded size and bounded waiting time. The assembler
//! decides; the caller receives submissions, waits and dispatches. Times are
//! milliseconds on the caller's monotonic clock.

use vstd::multiset::Multiset;
use vstd::prelude::*;
use vstd::string::*;
use crate::models::NormalizedChatRequest;
use crate::scheduler::{optional_number_text, optional_text};

verus! {

#[derive(Debug, Clone, Copy, PartialEq, Eq, Structural)]
pub struct BatchConfig {
    pub enabled: bool,
    pub max_batch_size: usize,
    pub max_wait_ms: u64,
}

/// The generation parameters that two requests must share to be batched.
#[derive(Debug)]
pub struct BatchClass {
    pub model: String,
    pub max_tokens: Option<u32>,
    pub temperature_repr: String,
    pub top_p_repr: String,
}

/// A submission: its class, the request, and the sink that awaits the result.
#[derive(Debug)]
pub struct BatchItem<S> {
    pub class: BatchClass,
    pub request: NormalizedChatRequest,
    pub response_tx: S,
}

/// What the caller does next.
#[derive(Debug)]
pub enum BatchStep<S> {
    /// Nothing is in assembly: wait for a submission, however long it takes.
    AwaitFirst,
    /// Wait for a submission, `timeout_ms` at most.
    AwaitMore { timeout_ms: u64 },
    /// Execute these against the backend, in order.
    Dispatch(Vec<BatchItem<S>>),
}

/// Two classes are the same when all four parameters agree.
pub open spec fn same_class(a: BatchClass, b: BatchClass) -> bool {
    &&& a.model@ == b.model@
    &&& a.max_tokens == b.max_tokens
    &&& a.temperature_repr@ == b.temperature_repr@
    &&& a.top_p_repr@ == b.top_p_repr@
}

/// The class of a request.
pub open spec fn class_of(request: &NormalizedChatRequest, class: BatchClass) -> bool {
    &&& class.model@ == request.model@
    &&& class.max_tokens == request.generation.max_tokens
    &&& class.temperature_repr@ == optional_text(request.generation.temperature)
    &&& class.top_p_repr@ == optional_text(request.generation.top_p)
}

/// Index of the first item at or after `i` whose class is `class`, or the
/// length of `pending` if there is none.
pub open spec fn position_from<S>(pending: Seq<BatchItem<S>>, class: BatchClass, i: int) -> int
    decreases pending.len() - i,
{
    if i < 0 || i >= pending.len() {
        pending.len() as int
    } else if same_class(pending[i].class, class) {
        i
    } else {
        position_from(pending, class, i + 1)
    }
}

/// A batch filled from the deferred queue: while the batch has room, the
/// first deferred item of the class moves to its end. Yields the batch and
/// what is left of the queue.
pub open spec fn filled<S>(
    batch: Seq<BatchItem<S>>,
    pending: Seq<BatchItem<S>>,
    class: BatchClass,
    max: int,
) -> (Seq<BatchItem<S>>, Seq<BatchItem<S>>)
    decreases pending.len(),
{
    let i = position_from(pending, class, 0);
    if batch.len() < max && 0 <= i < pending.len() {
        filled(batch.push(pending[i]), pending.remove(i), class, max)
    } else {
        (batch, pending)
    }
}

impl BatchConfig {
    /// The configuration for the given settings: batching is on unless the
    /// switch says otherwise, at most 8 items where no positive size is
    /// given, and 10 ms of waiting where no time is given.
    pub fn from_settings(enabled: Option<bool>, max_batch_size: Option<usize>, max_wait_ms: Option<u64>) -> (config:
        Self)
        ensures
            config.enabled == (enabled != Some(false)),
            config.max_batch_size == (match max_batch_size {
                Some(size) if size > 0 => size,
                _ => 8,
            }),
            config.max_wait_ms == (match max_wait_ms {
                Some(wait) => wait,
                None => 10,
            }),
    {
        BatchConfig {
            enabled: match enabled {
                Some(flag) => flag,
                None => true,
            },
            max_batch_size: match max_batch_size {
                Some(size) => if size > 0 {
                    size
                } else {
                    8
                },
                None => 8,
            },
            max_wait_ms: match max_wait_ms {
                Some(wait) => wait,
                None => 10,
            },
        }
    }
}

impl BatchClass {
    pub fn from_request(request: &NormalizedChatRequest) -> (class: Self)
        ensures
            class_of(request, class),
    {
        BatchClass {
            model: request.model.clone(),
            max_tokens: request.generation.max_tokens,
            temperature_repr: optional_number_text(&request.generation.temperature),
            top_p_repr: optional_number_text(&request.generation.top_p),
        }
    }

    /// Whether two classes are the same.
    pub fn matches(&self, other: &BatchClass) -> (r: bool)
        ensures
            r == same_class(*self, *other),
    {
        let same_max = match (self.max_tokens, other.max_tokens) {
            (Some(a), Some(b)) => a == b,
            (None, None) => true,
            _ => false,
        };
        self.model == other.model && same_max && self.temperature_repr == other.temperature_repr
            && self.top_p_repr == other.top_p_repr
    }
}

impl Clone for BatchClass {
    fn clone(&self) -> (r: Self)
        ensures
            r == *self,
    {
        BatchClass {
            model: self.model.clone(),
            max_tokens: self.max_tokens,
            temperature_repr: self.temperature_repr.clone(),
            top_p_repr: self.top_p_repr.clone(),
        }
    }
}

impl<S> BatchItem<S> {
    /// A submission of `request`, filed under the request's class.
    pub fn new(request: NormalizedChatRequest, response_tx: S) -> (item: Self)
        ensures
            class_of(&request, item.class),
            item.request == request,
            item.response_tx == response_tx,
    {
        let class = BatchClass::from_request(&request);
        BatchItem { class, request, response_tx }
    }
}

/// Takes the first deferred item of the class out of the queue.
pub fn take_matching<S>(pending: &mut Vec<BatchItem<S>>, class: &BatchClass) -> (taken: Option<
    BatchItem<S>,
>)
    ensures
        ({
            let i = position_from(old(pending)@, *class, 0);
            if 0 <= i < old(pending)@.len() {
                taken == Some(old(pending)@[i]) && final(pending)@ == old(pending)@.remove(i)
            } else {
                taken is None && final(pending)@ == old(pending)@
            }
        }),
{
    let mut i: usize = 0;
    while i < pending.len()
        invariant
            i <= pending@.len(),
            pending@ == old(pending)@,
            position_from(pending@, *class, 0) == position_from(pending@, *class, i as int),
        decreases pending@.len() - i,
    {
        if pending[i].class.matches(class) {
            return Some(pending.remove(i));
        }
        i += 1;
    }
    None
}

/// Moves deferred items of the class into the batch, oldest first, while the
/// batch has room.
pub fn fill_from_pending<S>(
    batch: &mut Vec<BatchItem<S>>,
    pending: &mut Vec<BatchItem<S>>,
    class: &BatchClass,
    max_batch_size: usize,
)
    ensures
        (final(batch)@, final(pending)@) == filled(
            old(batch)@,
            old(pending)@,
            *class,
            max_batch_size as int,
        ),
{
    while batch.len() < max_batch_size
        invariant
            filled(batch@, pending@, *class, max_batch_size as int) == filled(
                old(batch)@,
                old(pending)@,
                *class,
                max_batch_size as int,
            ),
        decreases pending@.len(),
    {
        match take_matching(pending, class) {
            Some(item) => {
                batch.push(item);
            },
            None => {
                return ;
            },
        }
    }
}

/// The assembler's state: the deferred queue, the batch in assembly (empty
/// when idle) and the time at which the batch is due.
#[derive(Debug)]
pub struct BatchAssembler<S> {
    pub config: BatchConfig,
    pub pending: Vec<BatchItem<S>>,
    pub batch: Vec<BatchItem<S>>,
    pub deadline: u64,
}

/// What `next_step` decides, over plain sequences.
pub struct Decision<S> {
    pub pending: Seq<BatchItem<S>>,
    pub batch: Seq<BatchItem<S>>,
    pub deadline: u64,
    pub dispatch: Option<Seq<BatchItem<S>>>,
    pub timeout_ms: Option<u64>,
}

/// A list of submissions of one class: each is of the class of the first.
pub open spec fn one_class<S>(items: Seq<BatchItem<S>>) -> bool {
    forall|k: int| 0 <= k < items.len() ==> same_class((#[trigger] items[k]).class, items[0].class)
}

/// The most that a batch may hold: `max_batch_size`, but one at least, and
/// one at most when batching is off.
pub open spec fn batch_limit(config: BatchConfig) -> int {
    if config.enabled && config.max_batch_size > 1 {
        config.max_batch_size as int
    } else {
        1
    }
}

impl<S> BatchAssembler<S> {
    /// The batch in assembly is of one class and within the limit.
    pub open spec fn wf(&self) -> bool {
        &&& one_class(self.batch@)
        &&& self.batch@.len() <= batch_limit(self.config)
    }

    /// The decision at time `now`.
    ///
    /// An idle assembler starts a batch with the oldest deferred item, due
    /// `max_wait_ms` from now; with nothing deferred it waits for a first
    /// submission. With batching off, or once the batch is due, the batch
    /// goes out as it is. Otherwise the batch is filled from the deferred
    /// queue; it goes out when it is full, and else the assembler waits for
    /// what is left of the time.
    pub open spec fn decide(&self, now: u64) -> Decision<S> {
        let idle = self.batch@.len() == 0;
        let pending = if idle && self.pending@.len() > 0 {
            self.pending@.drop_first()
        } else {
            self.pending@
        };
        let batch = if idle && self.pending@.len() > 0 {
            seq![self.pending@[0]]
        } else {
            self.batch@
        };
        let deadline = if idle && self.pending@.len() > 0 {
            (now + self.config.max_wait_ms) as u64
        } else {
            self.deadline
        };
        if batch.len() == 0 {
            Decision { pending, batch, deadline, dispatch: None, timeout_ms: None }
        } else if !self.config.enabled || now >= deadline {
            Decision {
                pending,
                batch: Seq::empty(),
                deadline,
                dispatch: Some(batch),
                timeout_ms: None,
            }
        } else {
            let full = filled(batch, pending, batch[0].class, self.config.max_batch_size as int);
            if full.0.len() >= self.config.max_batch_size {
                Decision {
                    pending: full.1,
                    batch: Seq::empty(),
                    deadline,
                    dispatch: Some(full.0),
                    timeout_ms: None,
                }
            } else {
                Decision {
                    pending: full.1,
                    batch: full.0,
                    deadline,
                    dispatch: None,
                    timeout_ms: Some((deadline - now) as u64),
                }
            }
        }
    }

    /// An idle assembler with nothing deferred.
    pub fn new(config: BatchConfig) -> (assembler: Self)
        ensures
            assembler.wf(),
            assembler.config == config,
            assembler.pending@.len() == 0,
            assembler.batch@.len() == 0,
    {
        BatchAssembler { config, pending: Vec::new(), batch: Vec::new(), deadline: 0 }
    }

    /// Decides what the worker does next at time `now`.
    pub fn next_step(&mut self, now: u64) -> (step: BatchStep<S>)
        requires
            old(self).wf(),
            now + old(self).config.max_wait_ms <= u64::MAX,
        ensures
            final(self).wf(),
            step matches BatchStep::Dispatch(items) ==> items@.len() > 0 && one_class(items@)
                && items@.len() <= batch_limit(old(self).config),
            final(self).config == old(self).config,
            final(self).pending@ == old(self).decide(now).pending,
            final(self).batch@ == old(self).decide(now).batch,
            final(self).deadline == old(self).decide(now).deadline,
            match step {
                BatchStep::AwaitFirst => old(self).decide(now).dispatch is None && old(self).decide(
                    now,
                ).timeout_ms is None,
                BatchStep::AwaitMore { timeout_ms } => old(self).decide(now).dispatch is None
                    && old(self).decide(now).timeout_ms == Some(timeout_ms),
                BatchStep::Dispatch(items) => old(self).decide(now).dispatch == Some(items@),
            },
    {
        if self.batch.len() == 0 {
            if self.pending.len() == 0 {
                return BatchStep::AwaitFirst;
            }
            let first = self.pending.remove(0);
            assert(self.pending@ =~= old(self).pending@.drop_first());
            self.batch.push(first);
            assert(self.batch@ =~= seq![old(self).pending@[0]]);
            self.deadline = now + self.config.max_wait_ms;
        }
        if !self.config.enabled || now >= self.deadline {
            let mut out: Vec<BatchItem<S>> = Vec::new();
            core::mem::swap(&mut out, &mut self.batch);
            return BatchStep::Dispatch(out);
        }
        let class = self.batch[0].class.clone();
        proof {
            lemma_filled_keeps_items(
                self.batch@,
                self.pending@,
                class,
                self.config.max_batch_size as int,
            );
        }
        let ghost started = self.batch@;
        fill_from_pending(&mut self.batch, &mut self.pending, &class, self.config.max_batch_size);
        proof {
            assert(self.batch@.take(started.len() as int)[0] == self.batch@[0]);
            assert forall|k: int| 0 <= k < self.batch@.len() implies same_class(
                (#[trigger] self.batch@[k]).class,
                self.batch@[0].class,
            ) by {
                if k < started.len() {
                    assert(self.batch@.take(started.len() as int)[k] == self.batch@[k]);
                }
            }
        }
        if self.batch.len() >= self.config.max_batch_size {
            let mut out: Vec<BatchItem<S>> = Vec::new();
            core::mem::swap(&mut out, &mut self.batch);
            BatchStep::Dispatch(out)
        } else {
            BatchStep::AwaitMore { timeout_ms: self.deadline - now }
        }
    }

    /// Takes in a submission received at time `now`. It starts a batch when
    /// the assembler is idle and nothing is deferred, joins the batch in
    /// assembly when batching is on, the class is the batch's and there is
    /// room, and is deferred, behind what was deferred before, otherwise.
    pub fn offer(&mut self, item: BatchItem<S>, now: u64)
        requires
            old(self).wf(),
            now + old(self).config.max_wait_ms <= u64::MAX,
        ensures
            final(self).wf(),
            final(self).config == old(self).config,
            old(self).starts(item) ==> {
                &&& final(self).batch@ == seq![item]
                &&& final(self).pending@ == old(self).pending@
                &&& final(self).deadline == now + old(self).config.max_wait_ms
            },
            !old(self).starts(item) ==> final(self).deadline == old(self).deadline,
            old(self).joins(item) ==> {
                &&& final(self).batch@ == old(self).batch@.push(item)
                &&& final(self).pending@ == old(self).pending@
            },
            !old(self).starts(item) && !old(self).joins(item) ==> {
                &&& final(self).batch@ == old(self).batch@
                &&& final(self).pending@ == old(self).pending@.push(item)
            },
    {
        if self.batch.len() == 0 {
            if self.pending.len() == 0 {
                self.batch.push(item);
                assert(self.batch@ =~= seq![item]);
                self.deadline = now + self.config.max_wait_ms;
            } else {
                self.pending.push(item);
            }
        } else if self.config.enabled && self.batch.len() < self.config.max_batch_size
            && item.class.matches(&self.batch[0].class) {
            self.batch.push(item);
        } else {
            self.pending.push(item);
        }
    }

    /// Whether a submission starts a batch: nothing is in assembly and
    /// nothing is deferred.
    pub open spec fn starts(&self, item: BatchItem<S>) -> bool {
        self.batch@.len() == 0 && self.pending@.len() == 0
    }

    /// Whether a submission joins the batch in assembly.
    pub open spec fn joins(&self, item: BatchItem<S>) -> bool {
        &&& self.config.enabled
        &&& 0 < self.batch@.len() < self.config.max_batch_size
        &&& same_class(item.class, self.batch@[0].class)
    }

    /// Hands out the batch in assembly as it is: the wait timed out, or no
    /// more submissions will come.
    pub fn flush(&mut self) -> (items: Vec<BatchItem<S>>)
        requires
            old(self).wf(),
        ensures
            final(self).wf(),
            one_class(items@),
            items@.len() <= batch_limit(old(self).config),
            final(self).config == old(self).config,
            final(self).pending@ == old(self).pending@,
            final(self).deadline == old(self).deadline,
            final(self).batch@.len() == 0,
            items@ == old(self).batch@,
    {
        let mut out: Vec<BatchItem<S>> = Vec::new();
        core::mem::swap(&mut out, &mut self.batch);
        out
    }
}

/// Filling loses nothing and invents nothing: batch and queue together hold
/// the same items afterwards as before, the batch grows at its end only, and
/// every item that moved is of the class.
pub proof fn lemma_filled_keeps_items<S>(
    batch: Seq<BatchItem<S>>,
    pending: Seq<BatchItem<S>>,
    class: BatchClass,
    max: int,
)
    ensures
        ({
            let out = filled(batch, pending, class, max);
            &&& out.0.to_multiset().add(out.1.to_multiset()) == batch.to_multiset().add(
                pending.to_multiset(),
            )
            &&& out.0.len() >= batch.len()
            &&& out.0.take(batch.len() as int) == batch
            &&& forall|k: int|
                batch.len() <= k < out.0.len() ==> same_class((#[trigger] out.0[k]).class, class)
            &&& (out.0.len() <= max || out.0 == batch)
        }),
    decreases pending.len(),
{
    let i = position_from(pending, class, 0);
    if batch.len() < max && 0 <= i < pending.len() {
        lemma_position(pending, class, 0);
        let grown = batch.push(pending[i]);
        let rest = pending.remove(i);
        lemma_filled_keeps_items(grown, rest, class, max);
        let out = filled(grown, rest, class, max);
        vstd::seq_lib::to_multiset_build(batch, pending[i]);
        vstd::seq_lib::to_multiset_remove(pending, i);
        pending.to_multiset_ensures();
        assert(pending.to_multiset().count(pending[i]) > 0);
        assert(out.0.to_multiset().add(out.1.to_multiset()) =~= batch.to_multiset().add(
            pending.to_multiset(),
        ));
        assert(out.0.take(batch.len() as int) =~= batch) by {
            assert(out.0.take(grown.len() as int) == grown);
            assert forall|k: int| 0 <= k < batch.len() implies out.0[k] == batch[k] by {
                assert(out.0.take(grown.len() as int)[k] == grown[k]);
            }
        }
        assert forall|k: int| batch.len() <= k < out.0.len() implies same_class(
            (#[trigger] out.0[k]).class,
            class,
        ) by {
            if k == batch.len() {
                assert(out.0.take(grown.len() as int)[k] == grown[k]);
            }
        }
    } else {
        assert(batch.take(batch.len() as int) =~= batch);
    }
}

proof fn lemma_position<S>(pending: Seq<BatchItem<S>>, class: BatchClass, i: int)
    requires
        0 <= i <= pending.len(),
    ensures
        i <= position_from(pending, class, i) <= pending.len(),
        position_from(pending, class, i) < pending.len() ==> same_class(
            pending[position_from(pending, class, i)].class,
            class,
        ),
    decreases pending.len() - i,
{
    if i < pending.len() && !same_class(pending[i].class, class) {
        lemma_position(pending, class, i + 1);
    }
}

/// Lower-case form of an ASCII letter; any other character as it is.
pub open spec fn ascii_lower(c: char) -> char {
    if 'A' <= c <= 'Z' {
        ((c as u8) + 32) as char
    } else {
        c
    }
}

/// Whether a text is the word `false`, in any mix of upper and lower case.
pub open spec fn is_false_word(s: Seq<char>) -> bool {
    &&& s.len() == 5
    &&& ascii_lower(s[0]) == 'f'
    &&& ascii_lower(s[1]) == 'a'
    &&& ascii_lower(s[2]) == 'l'
    &&& ascii_lower(s[3]) == 's'
    &&& ascii_lower(s[4]) == 'e'
}

/// Whether a switch is on: it is unless its text is `0` or the word `false`.
pub open spec fn switch_is_on(s: Seq<char>) -> bool {
    s != seq!['0'] && !is_false_word(s)
}

/// Reads the text of a switch.
pub fn parse_switch(value: &str) -> (on: bool)
    ensures
        on == switch_is_on(value@),
{
    let n: usize = value.unicode_len();
    if n == 1 {
        let c = value.get_char(0);
        assert(value@ =~= seq![c]);
        c != '0'
    } else if n == 5 {
        let c0 = value.get_char(0);
        let c1 = value.get_char(1);
        let c2 = value.get_char(2);
        let c3 = value.get_char(3);
        let c4 = value.get_char(4);
        !((c0 == 'f' || c0 == 'F') && (c1 == 'a' || c1 == 'A') && (c2 == 'l' || c2 == 'L') && (c3
            == 's' || c3 == 'S') && (c4 == 'e' || c4 == 'E'))
    } else {
        true
    }
}

/// A step loses no submission: what is deferred, in assembly or dispatched
/// after it is what was deferred or in assembly before it.
pub proof fn lemma_step_keeps_items<S>(assembler: BatchAssembler<S>, now: u64)
    ensures
        ({
            let decision = assembler.decide(now);
            let dispatched = match decision.dispatch {
                Some(items) => items,
                None => Seq::<BatchItem<S>>::empty(),
            };
            decision.pending.to_multiset().add(decision.batch.to_multiset()).add(
                dispatched.to_multiset(),
            ) == assembler.pending@.to_multiset().add(assembler.batch@.to_multiset())
        }),
{
    broadcast use vstd::multiset::group_multiset_axioms;

    let decision = assembler.decide(now);
    let nothing = Seq::<BatchItem<S>>::empty();
    let idle = assembler.batch@.len() == 0;
    let pending = if idle && assembler.pending@.len() > 0 {
        assembler.pending@.drop_first()
    } else {
        assembler.pending@
    };
    let batch = if idle && assembler.pending@.len() > 0 {
        seq![assembler.pending@[0]]
    } else {
        assembler.batch@
    };
    nothing.to_multiset_ensures();
    assert(nothing.to_multiset() =~= Multiset::<BatchItem<S>>::empty()) by {
        assert forall|item: BatchItem<S>| nothing.to_multiset().count(item) == 0 by {
            if nothing.to_multiset().count(item) > 0 {
                assert(nothing.contains(item));
            }
        }
    }
    assert(pending.to_multiset().add(batch.to_multiset()) =~= assembler.pending@.to_multiset().add(
        assembler.batch@.to_multiset(),
    )) by {
        if idle && assembler.pending@.len() > 0 {
            assert(assembler.batch@ =~= nothing);
            assert(assembler.pending@.drop_first() =~= assembler.pending@.remove(0));
            vstd::seq_lib::to_multiset_remove(assembler.pending@, 0);
            assert(seq![assembler.pending@[0]] =~= nothing.push(assembler.pending@[0]));
            vstd::seq_lib::to_multiset_build(nothing, assembler.pending@[0]);
            assembler.pending@.to_multiset_ensures();
            assert(assembler.pending@.to_multiset().count(assembler.pending@[0]) > 0);
        }
    }
    let dispatched = match decision.dispatch {
        Some(items) => items,
        None => nothing,
    };
    let before = pending.to_multiset().add(batch.to_multiset());
    let after = decision.pending.to_multiset().add(decision.batch.to_multiset()).add(
        dispatched.to_multiset(),
    );
    if batch.len() == 0 {
        assert(dispatched == nothing);
        assert(after =~= before);
    } else if !assembler.config.enabled || now >= decision.deadline {
        assert(decision.batch =~= nothing);
        assert(dispatched == batch);
        assert(after =~= before);
    } else {
        let max = assembler.config.max_batch_size as int;
        lemma_filled_keeps_items(batch, pending, batch[0].class, max);
        let out = filled(batch, pending, batch[0].class, max);
        assert(out.0.to_multiset().add(out.1.to_multiset()) == batch.to_multiset().add(
            pending.to_multiset(),
        ));
        assert(batch.to_multiset().add(pending.to_multiset()) =~= before);
        assert(out.1.to_multiset().add(out.0.to_multiset()) =~= out.0.to_multiset().add(
            out.1.to_multiset(),
        ));
        if decision.dispatch is Some {
            assert(decision.batch =~= nothing);
            assert(dispatched == out.0);
            assert(after =~= before);
        } else {
            assert(dispatched == nothing);
            assert(decision.batch == out.0);
            assert(after =~= before);
        }
    }
}

/// A batch that is due goes out as it is: once the deadline is reached, the
/// step dispatches what is in assembly and nothing else.
pub proof fn lemma_due_batch_is_dispatched<S>(assembler: BatchAssembler<S>, now: u64)
    requires
        assembler.batch@.len() > 0,
        now >= assembler.deadline,
    ensures
        assembler.decide(now).dispatch == Some(assembler.batch@),
        assembler.decide(now).batch.len() == 0,
        assembler.decide(now).pending == assembler.pending@,
{
}

} // verus!
