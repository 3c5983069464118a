//! The rounds by which the orchestrator delegates to specialists.
//!
//! The top-level model is asked; it answers, or it calls specialists. Each
//! call of a round is answered by one result, matched to it by identifier,
//! and only when the round is complete is the model asked again. A failing
//! specialist yields a result like any other; a failing model, or a passed
//! deadline, ends the exchange with a fixed reply.

use vstd::prelude::*;
use vstd::string::*;
use crate::agents::orchestrator::{RoleMessage, RoleMessageView};
use crate::agents::tool::{describes_itself, ToolCall, ToolCallView, ToolResult, ToolResultView};
use crate::message::{closes_with_text, ContentPartView, Message};

verus! {

/// The reply given when the top-level model cannot be had. It names no
/// cause.
pub open spec fn fallback_text() -> Seq<char> {
    "Lo siento, ocurrió un error procesando tu solicitud. Intenta de nuevo."@
}

/// Where an exchange stands.
#[derive(Debug, Clone, Copy, PartialEq, Eq, Structural)]
pub enum Phase {
    /// The message and the history are assembled; nothing was asked yet.
    Received,
    /// Delegating: the model has been asked and its reply is awaited.
    AwaitingModel,
    /// Delegating: calls of the current round are still without a result.
    AwaitingTools,
    /// The reply is fixed.
    Answered,
}

/// One round as text: what the model said, the calls it made, and for each
/// call, at the same index, its result once it is there.
pub struct RoundView {
    pub text: Seq<char>,
    pub calls: Seq<ToolCallView>,
    pub results: Seq<Option<ToolResultView>>,
}

/// An exchange as text.
pub struct DelegationView {
    pub phase: Phase,
    pub history: Seq<RoleMessageView>,
    pub message: Seq<ContentPartView>,
    pub rounds: Seq<RoundView>,
    pub answer: Option<Seq<char>>,
}

/// What happened, as text.
pub enum EventView {
    Started,
    ModelReplied { text: Seq<char>, calls: Seq<ToolCallView> },
    ModelFailed,
    ToolCompleted(ToolResultView),
    DeadlineExpired,
}

/// What is to be done next, as text.
pub enum ActionView {
    AskModel,
    Dispatch(Seq<ToolCallView>),
    Wait,
    Respond(Seq<char>),
}

/// Whether every call of the round has its result.
pub open spec fn complete(round: RoundView) -> bool {
    forall|i: int| 0 <= i < round.results.len() ==> (#[trigger] round.results[i]) is Some
}

/// The first call at or after `from` that carries the identifier `id` and
/// has no result yet.
pub open spec fn open_slot_from(round: RoundView, id: Seq<char>, from: int) -> Option<int>
    decreases round.calls.len() - from,
{
    if from < 0 || from >= round.calls.len() || from >= round.results.len() {
        None
    } else if round.calls[from].id == id && round.results[from] is None {
        Some(from)
    } else {
        open_slot_from(round, id, from + 1)
    }
}

/// The first call of the round that carries the identifier `id` and has no
/// result yet.
pub open spec fn open_slot(round: RoundView, id: Seq<char>) -> Option<int> {
    open_slot_from(round, id, 0)
}

/// The round that a reply with calls opens: no call has a result.
pub open spec fn opened(text: Seq<char>, calls: Seq<ToolCallView>) -> RoundView {
    RoundView { text, calls, results: Seq::new(calls.len(), |i: int| None) }
}

/// The round with `result` entered at `slot`.
pub open spec fn filled(round: RoundView, slot: int, result: ToolResultView) -> RoundView {
    RoundView { results: round.results.update(slot, Some(result)), ..round }
}

/// The exchange ended with `reply`.
pub open spec fn answered(state: DelegationView, reply: Seq<char>) -> (DelegationView, ActionView) {
    (
        DelegationView { phase: Phase::Answered, answer: Some(reply), ..state },
        ActionView::Respond(reply),
    )
}

/// The state after `event`, and what is to be done then.
///
/// An event that the phase does not await changes nothing and asks for
/// nothing: a reply of the model while calls are open, a result for a call
/// that is not open, anything after the answer.
pub open spec fn next(state: DelegationView, event: EventView) -> (DelegationView, ActionView) {
    match state.phase {
        Phase::Received => match event {
            EventView::Started => (
                DelegationView { phase: Phase::AwaitingModel, ..state },
                ActionView::AskModel,
            ),
            EventView::DeadlineExpired => answered(state, fallback_text()),
            _ => (state, ActionView::Wait),
        },
        Phase::AwaitingModel => match event {
            EventView::ModelReplied { text, calls } => if calls.len() == 0 {
                answered(state, text)
            } else {
                (
                    DelegationView {
                        phase: Phase::AwaitingTools,
                        rounds: state.rounds.push(opened(text, calls)),
                        ..state
                    },
                    ActionView::Dispatch(calls),
                )
            },
            EventView::ModelFailed => answered(state, fallback_text()),
            EventView::DeadlineExpired => answered(state, fallback_text()),
            _ => (state, ActionView::Wait),
        },
        Phase::AwaitingTools => match event {
            EventView::ToolCompleted(result) => if state.rounds.len() == 0 {
                (state, ActionView::Wait)
            } else {
                match open_slot(state.rounds.last(), result.call_id) {
                    Some(slot) => {
                        let round = filled(state.rounds.last(), slot, result);
                        let rounds = state.rounds.update(state.rounds.len() - 1, round);
                        if complete(round) {
                            (
                                DelegationView { phase: Phase::AwaitingModel, rounds, ..state },
                                ActionView::AskModel,
                            )
                        } else {
                            (DelegationView { rounds, ..state }, ActionView::Wait)
                        }
                    },
                    None => (state, ActionView::Wait),
                }
            },
            EventView::DeadlineExpired => answered(state, fallback_text()),
            _ => (state, ActionView::Wait),
        },
        Phase::Answered => (state, ActionView::Wait),
    }
}

/// Whether each result of the round stands at the index of the call whose
/// identifier it carries, and describes itself.
pub open spec fn paired(round: RoundView) -> bool {
    &&& round.calls.len() >= 1
    &&& round.results.len() == round.calls.len()
    &&& forall|i: int|
        0 <= i < round.results.len() ==> ((#[trigger] round.results[i]) matches Some(result)
            ==> result.call_id == round.calls[i].id && describes_itself(result))
}

/// What holds of every exchange: results are paired with their calls by
/// identifier, only the last round can be incomplete, and the phase says
/// whether it is.
pub open spec fn consistent(state: DelegationView) -> bool {
    &&& closes_with_text(state.message)
    &&& forall|k: int| 0 <= k < state.rounds.len() ==> paired(#[trigger] state.rounds[k])
    &&& forall|k: int| 0 <= k < state.rounds.len() - 1 ==> complete(#[trigger] state.rounds[k])
    &&& match state.phase {
        Phase::Received => state.rounds.len() == 0 && state.answer is None,
        Phase::AwaitingModel => state.answer is None && (state.rounds.len() > 0 ==> complete(
            state.rounds.last(),
        )),
        Phase::AwaitingTools => state.answer is None && state.rounds.len() > 0 && !complete(
            state.rounds.last(),
        ),
        Phase::Answered => state.answer is Some,
    }
}

/// What holds of every event: a result describes itself.
pub open spec fn sound(event: EventView) -> bool {
    event matches EventView::ToolCompleted(result) ==> describes_itself(result)
}

/// An open slot is a call with the identifier asked for and without a
/// result, and no call before it is such a call.
pub proof fn lemma_open_slot(round: RoundView, id: Seq<char>, from: int)
    requires
        0 <= from,
        round.results.len() == round.calls.len(),
    ensures
        match open_slot_from(round, id, from) {
            Some(slot) => {
                &&& from <= slot < round.calls.len()
                &&& round.calls[slot].id == id
                &&& round.results[slot] is None
                &&& forall|i: int|
                    from <= i < slot ==> !(round.calls[i].id == id && (
                    #[trigger] round.results[i]) is None)
            },
            None => forall|i: int|
                from <= i < round.calls.len() ==> !(round.calls[i].id == id && (
                #[trigger] round.results[i]) is None),
        },
    decreases round.calls.len() - from,
{
    if from < round.calls.len() && !(round.calls[from].id == id && round.results[from] is None) {
        lemma_open_slot(round, id, from + 1);
    }
}

/// Every event leaves a consistent exchange consistent.
pub proof fn lemma_next_consistent(state: DelegationView, event: EventView)
    requires
        consistent(state),
        sound(event),
    ensures
        consistent(next(state, event).0),
{
    let after = next(state, event).0;
    match state.phase {
        Phase::AwaitingModel => {
            if let EventView::ModelReplied { text, calls } = event {
                if calls.len() > 0 {
                    let round = opened(text, calls);
                    assert(paired(round));
                    assert(round.results[0] is None);
                    assert(!complete(round));
                    assert forall|k: int| 0 <= k < after.rounds.len() implies paired(
                        #[trigger] after.rounds[k],
                    ) by {
                        if k < state.rounds.len() {
                            assert(after.rounds[k] == state.rounds[k]);
                        }
                    }
                    assert forall|k: int| 0 <= k < after.rounds.len() - 1 implies complete(
                        #[trigger] after.rounds[k],
                    ) by {
                        assert(after.rounds[k] == state.rounds[k]);
                        if k == state.rounds.len() - 1 {
                            assert(state.rounds[k] == state.rounds.last());
                        }
                    }
                }
            }
        },
        Phase::AwaitingTools => {
            if let EventView::ToolCompleted(result) = event {
                let last = state.rounds.len() - 1;
                lemma_open_slot(state.rounds.last(), result.call_id, 0);
                if let Some(slot) = open_slot(state.rounds.last(), result.call_id) {
                    let round = filled(state.rounds.last(), slot, result);
                    assert(paired(state.rounds[last]));
                    assert(paired(round));
                    assert forall|k: int| 0 <= k < after.rounds.len() implies paired(
                        #[trigger] after.rounds[k],
                    ) by {
                        if k < last {
                            assert(after.rounds[k] == state.rounds[k]);
                        }
                    }
                    assert forall|k: int| 0 <= k < after.rounds.len() - 1 implies complete(
                        #[trigger] after.rounds[k],
                    ) by {
                        assert(after.rounds[k] == state.rounds[k]);
                    }
                }
            }
        },
        _ => {},
    }
}

/// A specialist that fails does not end the exchange: its failure is
/// entered as the result of its call, under the call's identifier and with
/// a text that is not empty, and the round goes on or is complete.
pub proof fn law_failed_call_is_answered(state: DelegationView, result: ToolResultView)
    requires
        consistent(state),
        state.phase == Phase::AwaitingTools,
        describes_itself(result),
        result.failed,
        open_slot(state.rounds.last(), result.call_id) is Some,
    ensures
        ({
            let slot = open_slot(state.rounds.last(), result.call_id)->0;
            let after = next(state, EventView::ToolCompleted(result)).0;
            &&& after.phase == Phase::AwaitingTools || after.phase == Phase::AwaitingModel
            &&& after.answer is None
            &&& after.rounds.len() == state.rounds.len()
            &&& after.rounds.last().calls == state.rounds.last().calls
            &&& after.rounds.last().calls[slot].id == result.call_id
            &&& after.rounds.last().results[slot] == Some(result)
            &&& result.content.len() > 0
            &&& consistent(after)
        }),
{
    lemma_open_slot(state.rounds.last(), result.call_id, 0);
    lemma_next_consistent(state, EventView::ToolCompleted(result));
}

/// Every call that is open can be answered: a result that carries its
/// identifier finds an open call with that identifier.
pub proof fn law_open_call_can_be_answered(state: DelegationView, index: int, id: Seq<char>)
    requires
        consistent(state),
        state.phase == Phase::AwaitingTools,
        0 <= index < state.rounds.last().calls.len(),
        state.rounds.last().results[index] is None,
        state.rounds.last().calls[index].id == id,
    ensures
        open_slot(state.rounds.last(), id) is Some,
{
    assert(paired(state.rounds[state.rounds.len() - 1]));
    lemma_open_slot(state.rounds.last(), id, 0);
}

/// The model is asked only between rounds: whenever a step asks for it, no
/// call of any round is without its result.
pub proof fn law_model_is_asked_between_rounds(state: DelegationView, event: EventView)
    requires
        consistent(state),
        sound(event),
        next(state, event).1 is AskModel,
    ensures
        forall|k: int|
            0 <= k < next(state, event).0.rounds.len() ==> complete(
                #[trigger] next(state, event).0.rounds[k],
            ),
{
    lemma_next_consistent(state, event);
    let after = next(state, event).0;
    assert(after.phase == Phase::AwaitingModel);
    assert forall|k: int| 0 <= k < after.rounds.len() implies complete(
        #[trigger] after.rounds[k],
    ) by {
        if k == after.rounds.len() - 1 {
            assert(after.rounds[k] == after.rounds.last());
        }
    }
}

/// When the call to the top-level model fails, the exchange is answered
/// with the fallback, which is what the caller is told to give.
pub proof fn law_model_failure_falls_back(state: DelegationView)
    requires
        state.phase == Phase::AwaitingModel,
    ensures
        next(state, EventView::ModelFailed).1 == ActionView::Respond(fallback_text()),
        next(state, EventView::ModelFailed).0.phase == Phase::Answered,
        next(state, EventView::ModelFailed).0.answer == Some(fallback_text()),
{
}

/// When the deadline passes before the answer, the exchange is answered
/// with the fallback.
pub proof fn law_deadline_falls_back(state: DelegationView)
    requires
        state.phase != Phase::Answered,
    ensures
        next(state, EventView::DeadlineExpired) == answered(state, fallback_text()),
{
}

/// Once answered, an exchange does not change.
pub proof fn law_answer_is_final(state: DelegationView, event: EventView)
    requires
        state.phase == Phase::Answered,
    ensures
        next(state, event) == (state, ActionView::Wait),
{
}

/// No step changes the message, the history, or a round that is complete.
pub proof fn law_input_is_kept(state: DelegationView, event: EventView)
    requires
        consistent(state),
    ensures
        next(state, event).0.history == state.history,
        next(state, event).0.message == state.message,
        next(state, event).0.rounds.len() >= state.rounds.len(),
        forall|k: int|
            0 <= k < state.rounds.len() && complete(state.rounds[k]) ==> (#[trigger] next(
                state,
                event,
            ).0.rounds[k]) == state.rounds[k],
{
    let after = next(state, event).0;
    if let EventView::ToolCompleted(result) = event {
        if state.phase == Phase::AwaitingTools {
            lemma_open_slot(state.rounds.last(), result.call_id, 0);
        }
    }
}

proof fn lemma_other_slot_is_untouched(
    round: RoundView,
    slot: int,
    result: ToolResultView,
    id: Seq<char>,
    from: int,
)
    requires
        round.results.len() == round.calls.len(),
        0 <= slot < round.calls.len(),
        round.calls[slot].id != id,
        0 <= from,
    ensures
        open_slot_from(filled(round, slot, result), id, from) == open_slot_from(round, id, from),
    decreases round.calls.len() - from,
{
    if from < round.calls.len() {
        lemma_other_slot_is_untouched(round, slot, result, id, from + 1);
    }
}

/// Results of calls with different identifiers may arrive in either order:
/// the exchange ends up the same.
pub proof fn law_results_arrive_in_any_order(
    state: DelegationView,
    first: ToolResultView,
    second: ToolResultView,
)
    requires
        consistent(state),
        first.call_id != second.call_id,
    ensures
        next(next(state, EventView::ToolCompleted(first)).0, EventView::ToolCompleted(second)).0
            == next(
            next(state, EventView::ToolCompleted(second)).0,
            EventView::ToolCompleted(first),
        ).0,
{
    if state.phase == Phase::AwaitingTools {
        let last = state.rounds.len() - 1;
        let round = state.rounds.last();
        assert(paired(state.rounds[last]));
        lemma_open_slot(round, first.call_id, 0);
        lemma_open_slot(round, second.call_id, 0);
        let one = open_slot(round, first.call_id);
        let two = open_slot(round, second.call_id);
        match (one, two) {
            (Some(a), Some(b)) => {
                let with_first = filled(round, a, first);
                let with_second = filled(round, b, second);
                lemma_other_slot_is_untouched(round, a, first, second.call_id, 0);
                lemma_other_slot_is_untouched(round, b, second, first.call_id, 0);
                assert(with_first.results[b] is None);
                assert(with_second.results[a] is None);
                assert(!complete(with_first));
                assert(!complete(with_second));
                let after_first = next(state, EventView::ToolCompleted(first)).0;
                let after_second = next(state, EventView::ToolCompleted(second)).0;
                assert(after_first.rounds.last() == with_first);
                assert(after_second.rounds.last() == with_second);
                let both = filled(with_first, b, second);
                let other = filled(with_second, a, first);
                assert(both.results =~= other.results);
                assert(after_first.rounds.update(last, both) =~= after_second.rounds.update(
                    last,
                    other,
                ));
            },
            (Some(a), None) => {
                lemma_other_slot_is_untouched(round, a, first, second.call_id, 0);
                let after_first = next(state, EventView::ToolCompleted(first)).0;
                assert(after_first.rounds.last() == filled(round, a, first));
            },
            (None, Some(b)) => {
                lemma_other_slot_is_untouched(round, b, second, first.call_id, 0);
                let after_second = next(state, EventView::ToolCompleted(second)).0;
                assert(after_second.rounds.last() == filled(round, b, second));
            },
            (None, None) => {},
        }
    }
}

/// One round of delegation: what the model said, the calls it made, and for
/// each call, at the same index, its result once it is there.
#[derive(Debug, PartialEq, Eq)]
pub struct Round {
    pub text: String,
    pub calls: Vec<ToolCall>,
    pub results: Vec<Option<ToolResult>>,
}

impl View for Round {
    type V = RoundView;

    open spec fn view(&self) -> RoundView {
        RoundView {
            text: self.text@,
            calls: self.calls.deep_view(),
            results: self.results.deep_view(),
        }
    }
}

impl DeepView for Round {
    type V = RoundView;

    open spec fn deep_view(&self) -> RoundView {
        self@
    }
}

impl Round {
    /// The index of the first call that carries `id` and has no result yet.
    pub fn open_slot(&self, id: &str) -> (slot: Option<usize>)
        ensures
            match slot {
                Some(index) => open_slot(self@, id@) == Some(index as int),
                None => open_slot(self@, id@) is None,
            },
    {
        let mut i: usize = 0;
        while i < self.calls.len() && i < self.results.len()
            invariant
                open_slot(self@, id@) == open_slot_from(self@, id@, i as int),
            decreases self.calls.len() - i,
        {
            proof {
                assert(self@.calls[i as int] == self.calls[i as int]@);
                assert(self@.results[i as int] == self.results[i as int].deep_view());
            }
            if self.calls[i].id.as_str().eq(id) && self.results[i].is_none() {
                return Some(i);
            }
            i = i + 1;
        }
        None
    }

    /// Whether every call of the round has its result.
    pub fn is_complete(&self) -> (done: bool)
        ensures
            done == complete(self@),
    {
        let mut i: usize = 0;
        while i < self.results.len()
            invariant
                i <= self.results.len(),
                forall|k: int| 0 <= k < i ==> (#[trigger] self@.results[k]) is Some,
            decreases self.results.len() - i,
        {
            proof {
                assert(self@.results[i as int] == self.results[i as int].deep_view());
            }
            if self.results[i].is_none() {
                return false;
            }
            i = i + 1;
        }
        true
    }
}

/// What happened since the last step.
#[derive(Debug, PartialEq, Eq)]
pub enum Event {
    /// The exchange is to begin.
    Started,
    /// The top-level model replied, with text and possibly with calls.
    ModelReplied { text: String, calls: Vec<ToolCall> },
    /// The call to the top-level model failed.
    ModelFailed,
    /// A specialist returned, with its output or with its failure.
    ToolCompleted(ToolResult),
    /// The time allowed for the request is over.
    DeadlineExpired,
}

impl View for Event {
    type V = EventView;

    open spec fn view(&self) -> EventView {
        match self {
            Event::Started => EventView::Started,
            Event::ModelReplied { text, calls } => EventView::ModelReplied {
                text: text@,
                calls: calls.deep_view(),
            },
            Event::ModelFailed => EventView::ModelFailed,
            Event::ToolCompleted(result) => EventView::ToolCompleted(result@),
            Event::DeadlineExpired => EventView::DeadlineExpired,
        }
    }
}

/// What the caller is to do next.
#[derive(Debug, PartialEq, Eq)]
pub enum Action {
    /// Ask the top-level model, with the history, the message and the
    /// rounds so far.
    AskModel,
    /// Run these calls, in any order or at once, and report each result.
    Dispatch(Vec<ToolCall>),
    /// Nothing: results are still to come, or the event was not awaited.
    Wait,
    /// Give this reply to the user.
    Respond(String),
}

impl View for Action {
    type V = ActionView;

    open spec fn view(&self) -> ActionView {
        match self {
            Action::AskModel => ActionView::AskModel,
            Action::Dispatch(calls) => ActionView::Dispatch(calls.deep_view()),
            Action::Wait => ActionView::Wait,
            Action::Respond(reply) => ActionView::Respond(reply@),
        }
    }
}

/// The reply given when the top-level model cannot be had.
pub fn fallback_reply() -> (reply: String)
    ensures
        reply@ == fallback_text(),
{
    String::from_str("Lo siento, ocurrió un error procesando tu solicitud. Intenta de nuevo.")
}

fn copy_calls(calls: &Vec<ToolCall>) -> (copies: Vec<ToolCall>)
    ensures
        copies.deep_view() == calls.deep_view(),
{
    let mut copies: Vec<ToolCall> = Vec::new();
    let mut i: usize = 0;
    while i < calls.len()
        invariant
            i <= calls.len(),
            copies.len() == i,
            forall|k: int| 0 <= k < i ==> #[trigger] copies[k]@ == calls[k]@,
        decreases calls.len() - i,
    {
        copies.push(calls[i].clone());
        i = i + 1;
    }
    assert(copies.deep_view() =~= calls.deep_view());
    copies
}

fn no_results(n: usize) -> (results: Vec<Option<ToolResult>>)
    ensures
        results.deep_view() == Seq::new(n as nat, |i: int| None::<ToolResultView>),
{
    let mut results: Vec<Option<ToolResult>> = Vec::new();
    let mut i: usize = 0;
    while i < n
        invariant
            i <= n,
            results.len() == i,
            forall|k: int| 0 <= k < i ==> (#[trigger] results[k]) is None,
        decreases n - i,
    {
        results.push(None);
        i = i + 1;
    }
    assert(results.deep_view() =~= Seq::new(n as nat, |i: int| None::<ToolResultView>));
    results
}

/// One exchange between a user's request and its answer.
#[derive(Debug, PartialEq, Eq)]
pub struct Delegation {
    phase: Phase,
    history: Vec<RoleMessage>,
    message: Message,
    rounds: Vec<Round>,
    answer: Option<String>,
}

impl View for Delegation {
    type V = DelegationView;

    closed spec fn view(&self) -> DelegationView {
        DelegationView {
            phase: self.phase,
            history: self.history.deep_view(),
            message: self.message@,
            rounds: self.rounds.deep_view(),
            answer: self.answer.deep_view(),
        }
    }
}

/// The exchange for a message and the history before it, with nothing asked
/// yet.
pub open spec fn received(history: Seq<RoleMessageView>, message: Seq<ContentPartView>) -> DelegationView {
    DelegationView {
        phase: Phase::Received,
        history,
        message,
        rounds: Seq::empty(),
        answer: None,
    }
}

impl Delegation {
    /// Every exchange is consistent.
    #[verifier::type_invariant]
    pub closed spec fn is_consistent(&self) -> bool {
        consistent(self@)
    }

    /// The exchange for `message`, with the turns before it.
    pub fn new(history: Vec<RoleMessage>, message: Message) -> (exchange: Delegation)
        ensures
            exchange@ == received(history.deep_view(), message@),
            consistent(exchange@),
    {
        proof {
            use_type_invariant(&message);
        }
        let rounds: Vec<Round> = Vec::new();
        assert(rounds.deep_view() =~= Seq::<RoundView>::empty());
        Delegation { phase: Phase::Received, history, message, rounds, answer: None }
    }

    /// Where the exchange stands.
    pub fn phase(&self) -> (phase: Phase)
        ensures
            phase == self@.phase,
            consistent(self@),
    {
        proof {
            use_type_invariant(self);
        }
        self.phase
    }

    /// The turns before the message, oldest first.
    pub fn history(&self) -> (history: &Vec<RoleMessage>)
        ensures
            history.deep_view() == self@.history,
    {
        &self.history
    }

    /// The message of the user.
    pub fn message(&self) -> (message: &Message)
        ensures
            message@ == self@.message,
    {
        &self.message
    }

    /// The rounds so far, oldest first. All but the last are complete.
    pub fn rounds(&self) -> (rounds: &Vec<Round>)
        ensures
            rounds.deep_view() == self@.rounds,
            consistent(self@),
    {
        proof {
            use_type_invariant(self);
        }
        &self.rounds
    }

    /// The reply, once the exchange is answered.
    pub fn answer(&self) -> (answer: &Option<String>)
        ensures
            answer.deep_view() == self@.answer,
            (self@.phase == Phase::Answered) ==> answer is Some,
    {
        proof {
            use_type_invariant(self);
        }
        &self.answer
    }

    /// Ends the exchange with `reply`.
    fn close(
        history: Vec<RoleMessage>,
        message: Message,
        rounds: Vec<Round>,
        reply: String,
    ) -> (after: (Delegation, Action))
        requires
            consistent(
                DelegationView {
                    phase: Phase::Answered,
                    history: history.deep_view(),
                    message: message@,
                    rounds: rounds.deep_view(),
                    answer: Some(reply@),
                },
            ),
        ensures
            after.0@ == (DelegationView {
                phase: Phase::Answered,
                history: history.deep_view(),
                message: message@,
                rounds: rounds.deep_view(),
                answer: Some(reply@),
            }),
            after.1@ == ActionView::Respond(reply@),
    {
        let shown = reply.clone();
        (
            Delegation { phase: Phase::Answered, history, message, rounds, answer: Some(reply) },
            Action::Respond(shown),
        )
    }

    /// Takes one event and says what is to be done next.
    pub fn step(self, event: Event) -> (after: (Delegation, Action))
        ensures
            (after.0@, after.1@) == next(self@, event@),
            consistent(after.0@),
    {
        proof {
            use_type_invariant(&self);
            if let Event::ToolCompleted(result) = &event {
                use_type_invariant(result);
            }
            lemma_next_consistent(self@, event@);
        }
        let ghost before = self@;
        let Delegation { phase, history, message, rounds, answer } = self;
        match (phase, event) {
            (Phase::Received, Event::Started) => (
                Delegation { phase: Phase::AwaitingModel, history, message, rounds, answer },
                Action::AskModel,
            ),
            (Phase::AwaitingModel, Event::ModelReplied { text, calls }) => {
                if calls.len() == 0 {
                    Self::close(history, message, rounds, text)
                } else {
                    let mut rounds = rounds;
                    let sent = copy_calls(&calls);
                    let results = no_results(calls.len());
                    let round = Round { text, calls, results };
                    rounds.push(round);
                    proof {
                        assert(rounds.deep_view() =~= before.rounds.push(round@));
                    }
                    (
                        Delegation { phase: Phase::AwaitingTools, history, message, rounds, answer },
                        Action::Dispatch(sent),
                    )
                }
            },
            (Phase::AwaitingModel, Event::ModelFailed) => Self::close(
                history,
                message,
                rounds,
                fallback_reply(),
            ),
            (Phase::AwaitingTools, Event::ToolCompleted(result)) => {
                let mut rounds = rounds;
                let round = match rounds.pop() {
                    Some(round) => round,
                    None => {
                        return (
                            Delegation { phase, history, message, rounds, answer },
                            Action::Wait,
                        );
                    },
                };
                proof {
                    assert(round@ == before.rounds.last());
                    assert(paired(before.rounds[before.rounds.len() - 1]));
                    lemma_open_slot(round@, result@.call_id, 0);
                }
                let slot = match round.open_slot(result.call_id()) {
                    Some(slot) => slot,
                    None => {
                        rounds.push(round);
                        proof {
                            assert(rounds.deep_view() =~= before.rounds);
                        }
                        return (
                            Delegation { phase, history, message, rounds, answer },
                            Action::Wait,
                        );
                    },
                };
                let ghost entered = filled(round@, slot as int, result@);
                let Round { text, calls, results } = round;
                let mut results = results;
                results.set(slot, Some(result));
                let round = Round { text, calls, results };
                proof {
                    assert(round@.results =~= entered.results);
                }
                let done = round.is_complete();
                rounds.push(round);
                proof {
                    assert(rounds.deep_view() =~= before.rounds.update(
                        before.rounds.len() - 1,
                        entered,
                    ));
                }
                if done {
                    (
                        Delegation { phase: Phase::AwaitingModel, history, message, rounds, answer },
                        Action::AskModel,
                    )
                } else {
                    (Delegation { phase, history, message, rounds, answer }, Action::Wait)
                }
            },
            (Phase::Received, Event::DeadlineExpired) => Self::close(
                history,
                message,
                rounds,
                fallback_reply(),
            ),
            (Phase::AwaitingModel, Event::DeadlineExpired) => Self::close(
                history,
                message,
                rounds,
                fallback_reply(),
            ),
            (Phase::AwaitingTools, Event::DeadlineExpired) => Self::close(
                history,
                message,
                rounds,
                fallback_reply(),
            ),
            (phase, _) => (Delegation { phase, history, message, rounds, answer }, Action::Wait),
        }
    }
}

} // verus!
