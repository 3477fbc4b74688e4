//! Handling one inbound bus item, from receipt to the log entry that ends it.
//!
//! The handling of an item is a small state machine. In every state it names
//! one action for the caller to perform: submit an order, cancel one, sleep,
//! or write the closing log entry. The caller performs the action and reports
//! back with an event; the machine answers with the next state. Items are
//! handled independently of each other: no state is shared between them.

use crate::decode::{parse_message, received, DecodeError};
use crate::id::Uuid;
use crate::intent::{TradeIntentView, TradeMessage, TradeMessageView};
use crate::normalize::{normalize_intent, normalized, prices_within, PRICE_DIGITS};
use crate::order::{OrderRequest, OrderRequestView};
use crate::retry::{succeeds, RetryPolicy, Verdict};
use crate::translate::{translate_intent, translated};
use vstd::prelude::*;

verus! {

/// What the bus handed over: a message, with or without a payload, or the
/// failure of the transport to deliver one.
#[derive(Clone, Debug, PartialEq, Eq)]
pub enum Inbound {
    Message { payload: Option<Vec<u8>> },
    TransportError,
}

/// Mathematical content of an [`Inbound`] item.
pub enum InboundView {
    Message { payload: Option<Seq<u8>> },
    TransportError,
}

impl View for Inbound {
    type V = InboundView;

    open spec fn view(&self) -> InboundView {
        match *self {
            Inbound::Message { payload: Some(bytes) } => InboundView::Message {
                payload: Some(bytes@),
            },
            Inbound::Message { payload: None } => InboundView::Message { payload: None },
            Inbound::TransportError => InboundView::TransportError,
        }
    }
}

/// How serious a log entry is.
#[derive(Clone, Copy, Debug, PartialEq, Eq, Structural)]
pub enum Level {
    Info,
    Warn,
}

/// The entry that closes the handling of an item.
#[derive(Clone, Copy, Debug, PartialEq, Eq, Structural)]
pub enum LogEntry {
    /// The transport failed; the item is skipped.
    TransportError,
    /// The payload could not be decoded; the message is dropped for good.
    Undecodable(DecodeError),
    /// The brokerage accepted the order.
    Submitted,
    /// Every attempt to submit the order failed.
    SubmitFailed,
    /// The brokerage cancelled the order.
    Cancelled(Uuid),
    /// The brokerage refused the cancellation.
    CancelFailed(Uuid),
}

/// What the caller reports back.
#[derive(Clone, Copy, Debug, PartialEq, Eq, Structural)]
pub enum Event {
    /// The brokerage answered the call, with success or with a failure.
    Reply { ok: bool },
    /// The delay has passed.
    Awake,
}

/// What the caller has to do next.
#[derive(Clone, Debug, PartialEq, Eq)]
pub enum Action {
    /// Submit this order, and report the reply.
    Submit(OrderRequest),
    /// Cancel the order with this identifier, and report the reply.
    Cancel(Uuid),
    /// Sleep for this many milliseconds, and report when awake.
    Sleep { delay_ms: u64 },
    /// Write this entry; the handling is over.
    Log(LogEntry),
}

/// Mathematical content of an [`Action`].
pub enum ActionView {
    Submit(OrderRequestView),
    Cancel(Uuid),
    Sleep { delay_ms: u64 },
    Log(LogEntry),
}

impl View for Action {
    type V = ActionView;

    open spec fn view(&self) -> ActionView {
        match *self {
            Action::Submit(order) => ActionView::Submit(order@),
            Action::Cancel(id) => ActionView::Cancel(id),
            Action::Sleep { delay_ms } => ActionView::Sleep { delay_ms },
            Action::Log(entry) => ActionView::Log(entry),
        }
    }
}

/// Where the handling of an item stands.
#[derive(Clone, Debug, PartialEq, Eq)]
pub enum Handling {
    /// Submission number `calls` of `order` is under way.
    Submitting { order: OrderRequest, calls: u32 },
    /// `calls` submissions of `order` have failed; the next one is due after
    /// `delay_ms` milliseconds.
    Waiting { order: OrderRequest, calls: u32, delay_ms: u64 },
    /// The cancellation of `id` is under way.
    Cancelling { id: Uuid },
    /// All that is left is to write `entry`.
    Done { entry: LogEntry },
}

/// Mathematical content of a [`Handling`].
pub enum HandlingView {
    Submitting { order: OrderRequestView, calls: u32 },
    Waiting { order: OrderRequestView, calls: u32, delay_ms: u64 },
    Cancelling { id: Uuid },
    Done { entry: LogEntry },
}

impl View for Handling {
    type V = HandlingView;

    open spec fn view(&self) -> HandlingView {
        match *self {
            Handling::Submitting { order, calls } => HandlingView::Submitting {
                order: order@,
                calls,
            },
            Handling::Waiting { order, calls, delay_ms } => HandlingView::Waiting {
                order: order@,
                calls,
                delay_ms,
            },
            Handling::Cancelling { id } => HandlingView::Cancelling { id },
            Handling::Done { entry } => HandlingView::Done { entry },
        }
    }
}

impl LogEntry {
    /// Good news is information, everything else a warning.
    pub open spec fn level_of(self) -> Level {
        match self {
            LogEntry::Submitted | LogEntry::Cancelled(_) => Level::Info,
            _ => Level::Warn,
        }
    }

    /// How serious the entry is.
    pub fn level(&self) -> (l: Level)
        ensures
            l == self.level_of(),
    {
        match self {
            LogEntry::Submitted => Level::Info,
            LogEntry::Cancelled(_) => Level::Info,
            _ => Level::Warn,
        }
    }
}

/// Where the handling of `inbound` begins. A transport failure and a payload
/// that does not decode end at once, with their log entry. A new intent is
/// normalized and translated, and its first submission is due. A cancellation
/// is due as it stands.
pub open spec fn begun(inbound: InboundView) -> HandlingView {
    match inbound {
        InboundView::TransportError => HandlingView::Done { entry: LogEntry::TransportError },
        InboundView::Message { payload } => match received(payload) {
            Err(e) => HandlingView::Done { entry: LogEntry::Undecodable(e) },
            Ok(TradeMessageView::New { intent }) => HandlingView::Submitting {
                order: translated(normalized(intent)),
                calls: 1,
            },
            Ok(TradeMessageView::Cancel { id }) => HandlingView::Cancelling { id },
        },
    }
}

/// The number after `calls`, as far as 32 bits go.
pub open spec fn next_call(calls: u32) -> u32 {
    if calls < u32::MAX {
        (calls + 1) as u32
    } else {
        calls
    }
}

impl HandlingView {
    /// What the caller has to do in this state.
    pub open spec fn action(self) -> ActionView {
        match self {
            HandlingView::Submitting { order, .. } => ActionView::Submit(order),
            HandlingView::Waiting { delay_ms, .. } => ActionView::Sleep { delay_ms },
            HandlingView::Cancelling { id } => ActionView::Cancel(id),
            HandlingView::Done { entry } => ActionView::Log(entry),
        }
    }

    /// The event that answers the action of this state, where the brokerage
    /// answers with `ok`.
    pub open spec fn answer(self, ok: bool) -> Event {
        match self {
            HandlingView::Waiting { .. } => Event::Awake,
            _ => Event::Reply { ok },
        }
    }

    /// The state after `event`. A submission that succeeded, or failed for
    /// the last time that `policy` allows, is done; one that failed earlier
    /// waits and is then submitted again. A cancellation is done after its
    /// one reply, whatever it was. An event that does not answer the action of
    /// the state changes nothing.
    pub open spec fn advanced(self, policy: RetryPolicy, event: Event) -> HandlingView {
        match (self, event) {
            (HandlingView::Submitting { order, calls }, Event::Reply { ok }) => match policy.verdict(
                calls as nat,
                ok,
            ) {
                Verdict::Succeeded => HandlingView::Done { entry: LogEntry::Submitted },
                Verdict::Exhausted => HandlingView::Done { entry: LogEntry::SubmitFailed },
                Verdict::Retry { delay_ms } => HandlingView::Waiting { order, calls, delay_ms },
            },
            (HandlingView::Waiting { order, calls, .. }, Event::Awake) => HandlingView::Submitting {
                order,
                calls: next_call(calls),
            },
            (HandlingView::Cancelling { id }, Event::Reply { ok }) => HandlingView::Done {
                entry: if ok {
                    LogEntry::Cancelled(id)
                } else {
                    LogEntry::CancelFailed(id)
                },
            },
            _ => self,
        }
    }

    /// An upper bound on the actions still to come.
    pub open spec fn steps_left(self, policy: RetryPolicy) -> nat {
        match self {
            HandlingView::Done { .. } => 0,
            HandlingView::Cancelling { .. } => 1,
            HandlingView::Submitting { calls, .. } => if calls < policy.max_attempts {
                (2 * (policy.max_attempts - calls) + 1) as nat
            } else {
                1
            },
            HandlingView::Waiting { calls, .. } => if calls < policy.max_attempts {
                (2 * (policy.max_attempts - calls)) as nat
            } else {
                2
            },
        }
    }

    /// The actions that the caller performs from this state to the end, where
    /// the brokerage answers its `i`-th call from here, counted from
    /// `replies`, as `outcomes` says.
    pub open spec fn actions(self, policy: RetryPolicy, outcomes: Seq<bool>, replies: nat) -> Seq<
        ActionView,
    >
        decreases self.steps_left(policy),
    {
        match self {
            HandlingView::Done { .. } => seq![self.action()],
            HandlingView::Waiting { .. } => seq![self.action()] + self.advanced(
                policy,
                Event::Awake,
            ).actions(policy, outcomes, replies),
            _ => seq![self.action()] + self.advanced(
                policy,
                Event::Reply { ok: succeeds(outcomes, replies) },
            ).actions(policy, outcomes, replies + 1),
        }
    }
}

impl Handling {
    /// Begins the handling of `inbound`.
    pub fn begin(inbound: &Inbound) -> (handling: Handling)
        ensures
            handling@ == begun(inbound@),
    {
        match inbound {
            Inbound::TransportError => Handling::Done { entry: LogEntry::TransportError },
            Inbound::Message { payload } => {
                let decoded = match payload {
                    Some(bytes) => parse_message(Some(bytes.as_slice())),
                    None => parse_message(None),
                };
                match decoded {
                    Err(e) => Handling::Done { entry: LogEntry::Undecodable(e) },
                    Ok(TradeMessage::New { intent }) => {
                        let mut intent = intent;
                        normalize_intent(&mut intent);
                        Handling::Submitting { order: translate_intent(intent), calls: 1 }
                    },
                    Ok(TradeMessage::Cancel { id }) => Handling::Cancelling { id },
                }
            },
        }
    }

    /// What the caller has to do now.
    pub fn action(&self) -> (action: Action)
        ensures
            action@ == self@.action(),
    {
        match self {
            Handling::Submitting { order, .. } => Action::Submit(order.clone()),
            Handling::Waiting { delay_ms, .. } => Action::Sleep { delay_ms: *delay_ms },
            Handling::Cancelling { id } => Action::Cancel(*id),
            Handling::Done { entry } => Action::Log(*entry),
        }
    }

    /// Whether the handling is over but for its log entry.
    pub fn is_done(&self) -> (done: bool)
        ensures
            done == (self@ is Done),
    {
        match self {
            Handling::Done { .. } => true,
            _ => false,
        }
    }

    /// The state after `event`.
    pub fn advance(self, policy: &RetryPolicy, event: Event) -> (next: Handling)
        ensures
            next@ == self@.advanced(*policy, event),
    {
        match (self, event) {
            (Handling::Submitting { order, calls }, Event::Reply { ok }) => {
                match policy.after_attempt(calls, ok) {
                    Verdict::Succeeded => Handling::Done { entry: LogEntry::Submitted },
                    Verdict::Exhausted => Handling::Done { entry: LogEntry::SubmitFailed },
                    Verdict::Retry { delay_ms } => Handling::Waiting { order, calls, delay_ms },
                }
            },
            (Handling::Waiting { order, calls, .. }, Event::Awake) => {
                let calls = if calls < u32::MAX {
                    calls + 1
                } else {
                    calls
                };
                Handling::Submitting { order, calls }
            },
            (Handling::Cancelling { id }, Event::Reply { ok }) => {
                if ok {
                    Handling::Done { entry: LogEntry::Cancelled(id) }
                } else {
                    Handling::Done { entry: LogEntry::CancelFailed(id) }
                }
            },
            (unchanged, _) => unchanged,
        }
    }
}

/// The mathematical content of each of `actions`.
pub open spec fn action_views(actions: Seq<Action>) -> Seq<ActionView> {
    Seq::new(actions.len(), |i: int| actions[i]@)
}

/// Plays the handling of `inbound` through without calling the brokerage or
/// sleeping: the brokerage's `i`-th reply, counted from zero, is taken to be
/// `replies[i]`, and a failure where `replies` has no such entry. The result
/// lists the actions in the order in which a caller performs them.
pub fn replay(inbound: &Inbound, policy: &RetryPolicy, replies: &Vec<bool>) -> (performed: Vec<
    Action,
>)
    ensures
        action_views(performed@) == begun(inbound@).actions(*policy, replies@, 0),
{
    let mut handling = Handling::begin(inbound);
    let mut performed: Vec<Action> = Vec::new();
    let mut answered: usize = 0;
    let ghost all = begun(inbound@).actions(*policy, replies@, 0);
    loop
        invariant
            all == begun(inbound@).actions(*policy, replies@, 0),
            action_views(performed@) + handling@.actions(*policy, replies@, answered as nat)
                == all,
            answered as nat <= replies@.len() || handling@ is Done,
        decreases handling@.steps_left(*policy),
    {
        performed.push(handling.action());
        match handling {
            Handling::Done { .. } => {
                return performed;
            },
            Handling::Waiting { .. } => {
                handling = handling.advance(policy, Event::Awake);
            },
            _ => {
                let ok = answered < replies.len() && replies[answered];
                handling = handling.advance(policy, Event::Reply { ok });
                if answered < replies.len() {
                    answered += 1;
                } else {
                    proof {
                        lemma_failures_from_here(handling@, *policy, replies@, answered as nat);
                    }
                }
            },
        }
    }
}

/// Once the replies have run out, every further call fails, so it does not
/// matter how the calls are counted.
proof fn lemma_failures_from_here(
    handling: HandlingView,
    policy: RetryPolicy,
    outcomes: Seq<bool>,
    replies: nat,
)
    requires
        replies >= outcomes.len(),
    ensures
        handling.actions(policy, outcomes, replies) == handling.actions(
            policy,
            outcomes,
            replies + 1,
        ),
    decreases handling.steps_left(policy),
{
    match handling {
        HandlingView::Done { .. } => {},
        HandlingView::Waiting { .. } => {
            lemma_failures_from_here(
                handling.advanced(policy, Event::Awake),
                policy,
                outcomes,
                replies,
            );
        },
        _ => {
            let next = handling.advanced(policy, Event::Reply { ok: false });
            lemma_failures_from_here(next, policy, outcomes, replies + 1);
        },
    }
}

/// How many of `actions` submit an order.
pub open spec fn submissions(actions: Seq<ActionView>) -> nat
    decreases actions.len(),
{
    if actions.len() == 0 {
        0
    } else if actions[0] is Submit {
        1 + submissions(actions.drop_first())
    } else {
        submissions(actions.drop_first())
    }
}

/// How many of `actions` cancel an order.
pub open spec fn cancellations(actions: Seq<ActionView>) -> nat
    decreases actions.len(),
{
    if actions.len() == 0 {
        0
    } else if actions[0] is Cancel {
        1 + cancellations(actions.drop_first())
    } else {
        cancellations(actions.drop_first())
    }
}

/// Whether the handling of `inbound` calls the brokerage.
pub open spec fn reaches_broker(inbound: InboundView) -> bool {
    begun(inbound) is Submitting || begun(inbound) is Cancelling
}

/// Whether `inbound` is a message that is dropped because it does not decode.
pub open spec fn is_dropped(inbound: InboundView) -> bool {
    begun(inbound) matches HandlingView::Done { entry: LogEntry::Undecodable(_) }
}

/// How many items of `batch` lead to a submission or a cancellation.
pub open spec fn dispatched(batch: Seq<InboundView>) -> nat
    decreases batch.len(),
{
    if batch.len() == 0 {
        0
    } else if reaches_broker(batch.last()) {
        dispatched(batch.drop_last()) + 1
    } else {
        dispatched(batch.drop_last())
    }
}

/// How many items of `batch` are dropped because they do not decode.
pub open spec fn dropped(batch: Seq<InboundView>) -> nat
    decreases batch.len(),
{
    if batch.len() == 0 {
        0
    } else if is_dropped(batch.last()) {
        dropped(batch.drop_last()) + 1
    } else {
        dropped(batch.drop_last())
    }
}

/// Counting through a list of actions from its first one.
proof fn lemma_count_first(first: ActionView, rest: Seq<ActionView>)
    ensures
        submissions(seq![first] + rest) == submissions(rest) + if first is Submit {
            1nat
        } else {
            0nat
        },
        cancellations(seq![first] + rest) == cancellations(rest) + if first is Cancel {
            1nat
        } else {
            0nat
        },
{
    let all = seq![first] + rest;
    assert(all.drop_first() == rest);
}

/// A list of one action.
proof fn lemma_count_single(only: ActionView)
    ensures
        submissions(seq![only]) == if only is Submit {
            1nat
        } else {
            0nat
        },
        cancellations(seq![only]) == if only is Cancel {
            1nat
        } else {
            0nat
        },
{
    let all = seq![only];
    assert(submissions(all.drop_first()) == 0);
    assert(cancellations(all.drop_first()) == 0);
}

/// An item that the transport failed to deliver, or whose payload does not
/// decode, ends with its log entry and nothing else: the brokerage is not
/// called.
pub proof fn lemma_failed_item_is_only_logged(
    inbound: InboundView,
    policy: RetryPolicy,
    outcomes: Seq<bool>,
)
    requires
        !reaches_broker(inbound),
    ensures
        begun(inbound) is Done,
        begun(inbound).actions(policy, outcomes, 0) == seq![
            ActionView::Log(begun(inbound)->entry),
        ],
        submissions(begun(inbound).actions(policy, outcomes, 0)) == 0,
        cancellations(begun(inbound).actions(policy, outcomes, 0)) == 0,
        inbound is TransportError ==> begun(inbound)->entry == LogEntry::TransportError,
        inbound matches InboundView::Message { payload } ==> received(payload) is Err && begun(
            inbound,
        )->entry == LogEntry::Undecodable(received(payload)->Err_0),
{
    lemma_count_single(ActionView::Log(begun(inbound)->entry));
}

/// A cancellation calls the brokerage exactly once, to cancel, and never to
/// submit; it is not retried, whatever the reply. Its log entry says how the
/// one call ended.
pub proof fn lemma_cancel_is_one_call(
    id: Uuid,
    policy: RetryPolicy,
    outcomes: Seq<bool>,
    replies: nat,
)
    ensures
        (HandlingView::Cancelling { id }).actions(policy, outcomes, replies) == seq![
            ActionView::Cancel(id),
            ActionView::Log(
                if succeeds(outcomes, replies) {
                    LogEntry::Cancelled(id)
                } else {
                    LogEntry::CancelFailed(id)
                },
            ),
        ],
        cancellations((HandlingView::Cancelling { id }).actions(policy, outcomes, replies)) == 1,
        submissions((HandlingView::Cancelling { id }).actions(policy, outcomes, replies)) == 0,
{
    let entry = if succeeds(outcomes, replies) {
        LogEntry::Cancelled(id)
    } else {
        LogEntry::CancelFailed(id)
    };
    let end = HandlingView::Done { entry };
    assert(end.actions(policy, outcomes, replies + 1) == seq![ActionView::Log(entry)]);
    lemma_count_first(ActionView::Cancel(id), seq![ActionView::Log(entry)]);
    lemma_count_single(ActionView::Log(entry));
}

/// A payload that decodes to a cancellation leads to exactly one call that
/// cancels the order it names, and to no submission.
pub proof fn lemma_cancel_message_is_one_call(
    payload: Option<Seq<u8>>,
    id: Uuid,
    policy: RetryPolicy,
    outcomes: Seq<bool>,
)
    requires
        received(payload) == Ok::<TradeMessageView, DecodeError>(TradeMessageView::Cancel { id }),
    ensures
        begun(InboundView::Message { payload }).actions(policy, outcomes, 0)[0]
            == ActionView::Cancel(id),
        cancellations(begun(InboundView::Message { payload }).actions(policy, outcomes, 0)) == 1,
        submissions(begun(InboundView::Message { payload }).actions(policy, outcomes, 0)) == 0,
{
    lemma_cancel_is_one_call(id, policy, outcomes, 0);
}

/// The submission of `order` from its `calls`-th attempt on: the brokerage is
/// called as often as the retry policy's run says, always with the same
/// order, never to cancel, and the log entry says how the run ended.
proof fn lemma_submission_from(
    order: OrderRequestView,
    calls: u32,
    policy: RetryPolicy,
    outcomes: Seq<bool>,
)
    requires
        1 <= calls,
        calls <= policy.max_attempts || calls == 1,
    ensures
        ({
            let actions = (HandlingView::Submitting { order, calls }).actions(
                policy,
                outcomes,
                (calls - 1) as nat,
            );
            let report = policy.run_from(outcomes, (calls - 1) as nat);
            &&& submissions(actions) == report.calls - (calls - 1)
            &&& cancellations(actions) == 0
            &&& actions.last() == ActionView::Log(
                if report.succeeded {
                    LogEntry::Submitted
                } else {
                    LogEntry::SubmitFailed
                },
            )
            &&& forall|i: int|
                0 <= i < actions.len() && actions[i] is Submit ==> actions[i]
                    == ActionView::Submit(order)
        }),
    decreases policy.max_attempts - calls,
{
    let start = HandlingView::Submitting { order, calls };
    let made = (calls - 1) as nat;
    let ok = succeeds(outcomes, made);
    let after = start.advanced(policy, Event::Reply { ok });
    lemma_count_first(ActionView::Submit(order), after.actions(policy, outcomes, made + 1));
    match policy.verdict(calls as nat, ok) {
        Verdict::Retry { delay_ms } => {
            let again = HandlingView::Submitting { order, calls: next_call(calls) };
            lemma_count_first(
                ActionView::Sleep { delay_ms },
                again.actions(policy, outcomes, made + 1),
            );
            lemma_submission_from(order, next_call(calls), policy, outcomes);
        },
        _ => {
            lemma_count_single(ActionView::Log(after->entry));
        },
    }
}

/// The submission of an order calls the brokerage as often as the retry
/// policy's run says, always with the same order and never to cancel. The log
/// entry reports success exactly when the run ended in success.
pub proof fn lemma_submission_follows_policy(
    order: OrderRequestView,
    policy: RetryPolicy,
    outcomes: Seq<bool>,
)
    ensures
        ({
            let actions = (HandlingView::Submitting { order, calls: 1 }).actions(
                policy,
                outcomes,
                0,
            );
            &&& submissions(actions) == policy.run(outcomes).calls
            &&& cancellations(actions) == 0
            &&& actions.last() == ActionView::Log(
                if policy.run(outcomes).succeeded {
                    LogEntry::Submitted
                } else {
                    LogEntry::SubmitFailed
                },
            )
            &&& forall|i: int|
                0 <= i < actions.len() && actions[i] is Submit ==> actions[i]
                    == ActionView::Submit(order)
        }),
{
    lemma_submission_from(order, 1, policy, outcomes);
}

/// A payload that decodes to a new intent leads to the submission of the
/// order that stands for the normalized intent, as often as the retry policy's
/// run says, and to no cancellation. The order's prices are in whole cents,
/// and its quantity and side are the intent's.
pub proof fn lemma_new_message_is_submitted(
    payload: Option<Seq<u8>>,
    intent: TradeIntentView,
    policy: RetryPolicy,
    outcomes: Seq<bool>,
)
    requires
        received(payload) == Ok::<TradeMessageView, DecodeError>(TradeMessageView::New { intent }),
    ensures
        ({
            let actions = begun(InboundView::Message { payload }).actions(policy, outcomes, 0);
            let order = translated(normalized(intent));
            &&& actions[0] == ActionView::Submit(order)
            &&& submissions(actions) == policy.run(outcomes).calls
            &&& cancellations(actions) == 0
            &&& prices_within(normalized(intent).order_type, PRICE_DIGITS as nat)
            &&& order.signed_qty() == intent.qty
            &&& order.symbol == intent.ticker
        }),
{
    lemma_submission_follows_policy(translated(normalized(intent)), policy, outcomes);
}

/// Of a batch of messages of which exactly one does not decode, all but that
/// one lead to a submission or a cancellation, and exactly one is dropped.
/// The premises do not speak of the order of the batch: the counts are the
/// same in whatever order the messages arrive.
pub proof fn lemma_one_undecodable(batch: Seq<InboundView>, bad: int)
    requires
        0 <= bad < batch.len(),
        forall|i: int| 0 <= i < batch.len() ==> #[trigger] batch[i] is Message,
        forall|i: int|
            0 <= i < batch.len() ==> (received((#[trigger] batch[i])->payload) is Err <==> i
                == bad),
    ensures
        dispatched(batch) == batch.len() - 1,
        dropped(batch) == 1,
    decreases batch.len(),
{
    if bad == batch.len() - 1 {
        lemma_all_decodable(batch.drop_last());
    } else {
        lemma_one_undecodable(batch.drop_last(), bad);
    }
}

/// Of a batch of messages that all decode, every one leads to a submission
/// or a cancellation, and none is dropped.
pub proof fn lemma_all_decodable(batch: Seq<InboundView>)
    requires
        forall|i: int| 0 <= i < batch.len() ==> #[trigger] batch[i] is Message,
        forall|i: int| 0 <= i < batch.len() ==> received((#[trigger] batch[i])->payload) is Ok,
    ensures
        dispatched(batch) == batch.len(),
        dropped(batch) == 0,
    decreases batch.len(),
{
    if batch.len() > 0 {
        lemma_all_decodable(batch.drop_last());
    }
}

/// One step of counting the items that reach the brokerage.
spec fn count_dispatched() -> spec_fn(InboundView, nat) -> nat {
    |inbound: InboundView, n: nat|
        if reaches_broker(inbound) {
            n + 1
        } else {
            n
        }
}

/// One step of counting the items that are dropped.
spec fn count_dropped() -> spec_fn(InboundView, nat) -> nat {
    |inbound: InboundView, n: nat|
        if is_dropped(inbound) {
            n + 1
        } else {
            n
        }
}

/// The counts are folds over the batch.
proof fn lemma_counts_are_folds(batch: Seq<InboundView>, from: nat)
    ensures
        batch.fold_right(count_dispatched(), from) == dispatched(batch) + from,
        batch.fold_right(count_dropped(), from) == dropped(batch) + from,
    decreases batch.len(),
{
    if batch.len() > 0 {
        lemma_counts_are_folds(batch.drop_last(), count_dispatched()(batch.last(), from));
        lemma_counts_are_folds(batch.drop_last(), count_dropped()(batch.last(), from));
    }
}

/// The order in which the items of a batch arrive does not matter: two
/// batches that hold the same items, each as often as the other, have as
/// many items that lead to a submission or a cancellation, and as many that
/// are dropped.
pub proof fn lemma_arrival_order_does_not_matter(first: Seq<InboundView>, second: Seq<InboundView>)
    requires
        first.to_multiset() == second.to_multiset(),
    ensures
        dispatched(first) == dispatched(second),
        dropped(first) == dropped(second),
{
    lemma_counts_are_folds(first, 0);
    lemma_counts_are_folds(second, 0);
    vstd::seq_lib::lemma_fold_right_permutation(first, second, count_dispatched(), 0);
    vstd::seq_lib::lemma_fold_right_permutation(first, second, count_dropped(), 0);
}

} // verus!
