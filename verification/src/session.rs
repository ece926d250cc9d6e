use vstd::prelude::*;

verus! {

/// Seconds between the end of a connection and the next attempt.
pub const RECONNECT_DELAY_SECS: u64 = 20;

/// Seconds to wait before asking again for a free wallet.
pub const NO_WALLET_DELAY_SECS: u64 = 1;

/// Seconds to wait when the server sent nothing back.
pub const SILENT_SERVER_DELAY_SECS: u64 = 5;

/// Seconds to rest at the end of each round.
pub const ROUND_DELAY_SECS: u64 = 1;

/// Where a worker stands in its round of asking for and handing out
/// batches.
#[derive(Debug, Clone, Copy, PartialEq, Eq, Structural)]
pub enum PollPhase {
    /// Waiting to learn whether a wallet is free.
    Acquiring,
    /// Holding a wallet, sending the request for a batch.
    Requesting,
    /// Holding a wallet, waiting for the server's reply.
    Receiving,
    /// Handing the reply, with the wallet, to a processing task.
    Dispatching,
    /// Holding the wallet, resting after the server sent nothing back.
    Recovering,
    /// Holding the wallet, resting at the end of a round in which the
    /// server sent nothing back.
    Settling,
    /// Resting before the next round, with no wallet held.
    Cooling,
    /// The connection is given up.
    Stopped,
}

/// What the surroundings report after carrying out an action.
#[derive(Debug, Clone)]
pub enum PollEvent {
    PermitGranted,
    NoPermit,
    RequestSent,
    RequestFailed(String),
    MessageReceived,
    StreamEnded,
    Dispatched,
    Slept,
}

/// What a worker asks its surroundings to do next.
#[derive(Debug, Clone)]
pub enum PollAction {
    TryAcquirePermit,
    SendBatchRequest,
    ReadMessage,
    Dispatch,
    Sleep(u64),
    Stop(String),
}

/// The phases in which the worker holds a wallet permit: from the grant
/// until it is handed to a processing task, or, when no reply came, until
/// the round ends.
pub open spec fn holds_permit(phase: PollPhase) -> bool {
    ||| phase == PollPhase::Requesting
    ||| phase == PollPhase::Receiving
    ||| phase == PollPhase::Dispatching
    ||| phase == PollPhase::Recovering
    ||| phase == PollPhase::Settling
}

/// The events that can follow the action a phase was entered with.
pub open spec fn expected_event(phase: PollPhase, event: PollEvent) -> bool {
    match phase {
        PollPhase::Acquiring => event is PermitGranted || event is NoPermit,
        PollPhase::Requesting => event is RequestSent || event is RequestFailed,
        PollPhase::Receiving => event is MessageReceived || event is StreamEnded,
        PollPhase::Dispatching => event is Dispatched,
        PollPhase::Recovering => event is Slept,
        PollPhase::Settling => event is Slept,
        PollPhase::Cooling => event is Slept,
        PollPhase::Stopped => false,
    }
}

/// The round of a worker: take a free wallet or wait a second for one; ask
/// for a batch (a failed request ends the connection); read the reply and
/// hand it with the wallet to a processing task, or, when the server sent
/// nothing, wait five seconds; rest a second; start over. The wallet goes
/// with the reply to its task; with no reply it is kept to the round's end.
pub open spec fn poll_transition(phase: PollPhase, event: PollEvent) -> (PollPhase, PollAction) {
    match (phase, event) {
        (PollPhase::Acquiring, PollEvent::PermitGranted) => (PollPhase::Requesting, PollAction::SendBatchRequest),
        (PollPhase::Acquiring, PollEvent::NoPermit) => (PollPhase::Cooling, PollAction::Sleep(NO_WALLET_DELAY_SECS)),
        (PollPhase::Requesting, PollEvent::RequestSent) => (PollPhase::Receiving, PollAction::ReadMessage),
        (PollPhase::Requesting, PollEvent::RequestFailed(e)) => (PollPhase::Stopped, PollAction::Stop(e)),
        (PollPhase::Receiving, PollEvent::MessageReceived) => (PollPhase::Dispatching, PollAction::Dispatch),
        (PollPhase::Receiving, PollEvent::StreamEnded) => (PollPhase::Recovering, PollAction::Sleep(SILENT_SERVER_DELAY_SECS)),
        (PollPhase::Dispatching, PollEvent::Dispatched) => (PollPhase::Cooling, PollAction::Sleep(ROUND_DELAY_SECS)),
        (PollPhase::Recovering, PollEvent::Slept) => (PollPhase::Settling, PollAction::Sleep(ROUND_DELAY_SECS)),
        (PollPhase::Settling, PollEvent::Slept) => (PollPhase::Acquiring, PollAction::TryAcquirePermit),
        (PollPhase::Cooling, PollEvent::Slept) => (PollPhase::Acquiring, PollAction::TryAcquirePermit),
        _ => arbitrary(),
    }
}

/// Whether an event answers the action a phase was entered with.
pub fn event_fits(phase: PollPhase, event: &PollEvent) -> (b: bool)
    ensures
        b == expected_event(phase, *event),
        phase == PollPhase::Acquiring && (*event is PermitGranted || *event is NoPermit) ==> b,
        phase == PollPhase::Requesting && (*event is RequestSent || *event is RequestFailed) ==> b,
        phase == PollPhase::Receiving && (*event is MessageReceived || *event is StreamEnded) ==> b,
        phase == PollPhase::Dispatching && *event is Dispatched ==> b,
        (phase == PollPhase::Recovering || phase == PollPhase::Settling || phase == PollPhase::Cooling)
            && *event is Slept ==> b,
        phase == PollPhase::Stopped ==> !b,
{
    match phase {
        PollPhase::Acquiring => matches!(event, PollEvent::PermitGranted | PollEvent::NoPermit),
        PollPhase::Requesting => matches!(event, PollEvent::RequestSent | PollEvent::RequestFailed(_)),
        PollPhase::Receiving => matches!(event, PollEvent::MessageReceived | PollEvent::StreamEnded),
        PollPhase::Dispatching => matches!(event, PollEvent::Dispatched),
        PollPhase::Recovering | PollPhase::Settling | PollPhase::Cooling => matches!(event, PollEvent::Slept),
        PollPhase::Stopped => false,
    }
}

/// Every outcome the surroundings can report for the action a phase was
/// entered with answers that phase: a permit granted or not; a request sent
/// or failed, with any error; a message read or none; a dispatch; a sleep.
pub proof fn lemma_every_outcome_fits(e: String)
    ensures
        expected_event(PollPhase::Acquiring, PollEvent::PermitGranted),
        expected_event(PollPhase::Acquiring, PollEvent::NoPermit),
        expected_event(PollPhase::Requesting, PollEvent::RequestSent),
        expected_event(PollPhase::Requesting, PollEvent::RequestFailed(e)),
        expected_event(PollPhase::Receiving, PollEvent::MessageReceived),
        expected_event(PollPhase::Receiving, PollEvent::StreamEnded),
        expected_event(PollPhase::Dispatching, PollEvent::Dispatched),
        expected_event(PollPhase::Recovering, PollEvent::Slept),
        expected_event(PollPhase::Settling, PollEvent::Slept),
        expected_event(PollPhase::Cooling, PollEvent::Slept),
        forall|phase: PollPhase, err: String|
            fits(phase, PollAction::SendBatchRequest) ==> #[trigger] expected_event(phase, PollEvent::RequestFailed(err)),
{
}

/// The first phase of a connection and its first action.
pub fn start() -> (res: (PollPhase, PollAction))
    ensures
        res.0 == PollPhase::Acquiring,
        res.1 is TryAcquirePermit,
{
    (PollPhase::Acquiring, PollAction::TryAcquirePermit)
}

/// The next phase and action of a worker's round after an event.
pub fn poll_step(phase: PollPhase, event: PollEvent) -> (res: (PollPhase, PollAction))
    requires
        expected_event(phase, event),
    ensures
        res == poll_transition(phase, event),
{
    match (phase, event) {
        (PollPhase::Acquiring, PollEvent::PermitGranted) => (PollPhase::Requesting, PollAction::SendBatchRequest),
        (PollPhase::Acquiring, _) => (PollPhase::Cooling, PollAction::Sleep(NO_WALLET_DELAY_SECS)),
        (PollPhase::Requesting, PollEvent::RequestFailed(e)) => (PollPhase::Stopped, PollAction::Stop(e)),
        (PollPhase::Requesting, _) => (PollPhase::Receiving, PollAction::ReadMessage),
        (PollPhase::Receiving, PollEvent::MessageReceived) => (PollPhase::Dispatching, PollAction::Dispatch),
        (PollPhase::Receiving, _) => (PollPhase::Recovering, PollAction::Sleep(SILENT_SERVER_DELAY_SECS)),
        (PollPhase::Dispatching, _) => (PollPhase::Cooling, PollAction::Sleep(ROUND_DELAY_SECS)),
        (PollPhase::Recovering, _) => (PollPhase::Settling, PollAction::Sleep(ROUND_DELAY_SECS)),
        (PollPhase::Settling, _) => (PollPhase::Acquiring, PollAction::TryAcquirePermit),
        (PollPhase::Cooling, _) => (PollPhase::Acquiring, PollAction::TryAcquirePermit),
        (PollPhase::Stopped, _) => (PollPhase::Stopped, PollAction::Stop(String::new())),
    }
}

/// Wallet permits in a worker's round: a batch is asked for, read and
/// dispatched only while a permit is held; a permit is only ever obtained
/// by a grant; none is asked for while one is held; and dispatching hands
/// the permit over to the processing task.
pub proof fn lemma_permit_discipline(phase: PollPhase, event: PollEvent)
    requires
        expected_event(phase, event),
    ensures
        ({
            let (next, action) = poll_transition(phase, event);
            &&& (action is SendBatchRequest || action is ReadMessage || action is Dispatch) ==> holds_permit(next)
            &&& (holds_permit(next) && !holds_permit(phase)) ==> event is PermitGranted
            &&& action is TryAcquirePermit ==> !holds_permit(next)
            &&& phase == PollPhase::Dispatching ==> !holds_permit(next)
        }),
{
}

/// A connection is given up only when the request for a batch failed, and
/// then with that request's error.
pub proof fn lemma_stops_only_on_failed_request(phase: PollPhase, event: PollEvent)
    requires
        expected_event(phase, event),
    ensures
        poll_transition(phase, event).0 == PollPhase::Stopped <==> event is RequestFailed,
        event matches PollEvent::RequestFailed(e) ==> poll_transition(phase, event).1 == PollAction::Stop(e),
{
}

/// The action each phase is entered with.
pub open spec fn fits(phase: PollPhase, action: PollAction) -> bool {
    match phase {
        PollPhase::Acquiring => action is TryAcquirePermit,
        PollPhase::Requesting => action is SendBatchRequest,
        PollPhase::Receiving => action is ReadMessage,
        PollPhase::Dispatching => action is Dispatch,
        PollPhase::Recovering => action is Sleep,
        PollPhase::Settling => action is Sleep,
        PollPhase::Cooling => action is Sleep,
        PollPhase::Stopped => action is Stop,
    }
}

/// A run of a connection's loop: it starts as `start` does, each event
/// answers the current phase, and each step is `poll_step`'s.
pub open spec fn is_run(phases: Seq<PollPhase>, events: Seq<PollEvent>, actions: Seq<PollAction>) -> bool {
    &&& phases.len() == events.len() + 1
    &&& actions.len() == phases.len()
    &&& phases[0] == PollPhase::Acquiring
    &&& actions[0] is TryAcquirePermit
    &&& forall|i: int| 0 <= i < events.len() ==> #[trigger] expected_event(phases[i], events[i])
    &&& forall|i: int|
        0 <= i < events.len() ==> #[trigger] poll_transition(phases[i], events[i]) == (
            phases[i + 1],
            actions[i + 1],
        )
}

/// How many batch requests a run's actions send.
pub open spec fn requests_sent(actions: Seq<PollAction>) -> nat
    decreases actions.len(),
{
    if actions.len() == 0 {
        0
    } else {
        requests_sent(actions.drop_last()) + if actions.last() is SendBatchRequest {
            1nat
        } else {
            0nat
        }
    }
}

/// How many messages a run's actions read.
pub open spec fn messages_read(actions: Seq<PollAction>) -> nat
    decreases actions.len(),
{
    if actions.len() == 0 {
        0
    } else {
        messages_read(actions.drop_last()) + if actions.last() is ReadMessage {
            1nat
        } else {
            0nat
        }
    }
}

proof fn lemma_run_step(phases: Seq<PollPhase>, events: Seq<PollEvent>, actions: Seq<PollAction>, i: int)
    requires
        is_run(phases, events, actions),
        0 <= i < actions.len(),
    ensures
        fits(phases[i], actions[i]),
        i > 0 ==> expected_event(phases[i - 1], events[i - 1]) && poll_transition(phases[i - 1], events[i - 1])
            == (phases[i], actions[i]),
        i < events.len() ==> expected_event(phases[i], events[i]),
{
    if i > 0 {
        let p = i - 1;
        assert(expected_event(phases[p], events[p]));
        assert(poll_transition(phases[p], events[p]) == (phases[p + 1], actions[p + 1]));
    }
    if i < events.len() {
        assert(expected_event(phases[i], events[i]));
    }
}

/// The order within every round of a run: a message is read only right
/// after its own batch request went out, and a reply is dispatched only
/// right after it was read, in a round that began with a granted permit,
/// held since.
pub proof fn lemma_run_order(phases: Seq<PollPhase>, events: Seq<PollEvent>, actions: Seq<PollAction>, i: int)
    requires
        is_run(phases, events, actions),
        0 <= i < actions.len(),
    ensures
        actions[i] is ReadMessage ==> {
            &&& i >= 1
            &&& actions[i - 1] is SendBatchRequest
            &&& events[i - 1] is RequestSent
        },
        actions[i] is Dispatch ==> {
            &&& i >= 3
            &&& actions[i - 1] is ReadMessage && events[i - 1] is MessageReceived
            &&& actions[i - 2] is SendBatchRequest && events[i - 2] is RequestSent
            &&& actions[i - 3] is TryAcquirePermit && events[i - 3] is PermitGranted
            &&& holds_permit(phases[i - 2]) && holds_permit(phases[i - 1]) && holds_permit(phases[i])
        },
{
    lemma_run_step(phases, events, actions, i);
    if actions[i] is ReadMessage {
        lemma_run_step(phases, events, actions, i - 1);
    }
    if actions[i] is Dispatch {
        lemma_run_step(phases, events, actions, i - 1);
        lemma_run_step(phases, events, actions, i - 2);
        lemma_run_step(phases, events, actions, i - 3);
    }
}

/// Over any prefix of a run, the messages read never outnumber the batch
/// requests sent: each read follows a request of its own, and the only
/// request not yet answered by a read is the last action, or the failed
/// one the run stopped on.
pub proof fn lemma_reads_follow_requests(phases: Seq<PollPhase>, events: Seq<PollEvent>, actions: Seq<PollAction>, k: int)
    requires
        is_run(phases, events, actions),
        0 <= k <= actions.len(),
    ensures
        messages_read(actions.take(k)) <= requests_sent(actions.take(k)),
        requests_sent(actions.take(k)) == messages_read(actions.take(k)) + if k > 0 && (actions[k - 1] is SendBatchRequest
            || actions[k - 1] is Stop) {
            1nat
        } else {
            0nat
        },
    decreases k,
{
    if k > 0 {
        let p = k - 1;
        lemma_reads_follow_requests(phases, events, actions, p);
        assert(actions.take(k).drop_last() =~= actions.take(p));
        assert(actions.take(k).last() == actions[p]);
        lemma_run_step(phases, events, actions, p);
        if p > 0 {
            lemma_run_step(phases, events, actions, p - 1);
        }
    }
}

/// How many processing tasks a run's actions start.
pub open spec fn tasks_started(actions: Seq<PollAction>) -> nat
    decreases actions.len(),
{
    if actions.len() == 0 {
        0
    } else {
        tasks_started(actions.drop_last()) + if actions.last() is Dispatch {
            1nat
        } else {
            0nat
        }
    }
}

/// How many permits a run's events were granted.
pub open spec fn permits_granted(events: Seq<PollEvent>) -> nat
    decreases events.len(),
{
    if events.len() == 0 {
        0
    } else {
        permits_granted(events.drop_last()) + if events.last() is PermitGranted {
            1nat
        } else {
            0nat
        }
    }
}

/// Over any prefix of a run, every processing task started takes a permit
/// granted for its round alone: the tasks started, with the permit the loop
/// still holds for a round not yet dispatched, never outnumber the permits
/// granted.
pub proof fn lemma_tasks_follow_grants(phases: Seq<PollPhase>, events: Seq<PollEvent>, actions: Seq<PollAction>, k: int)
    requires
        is_run(phases, events, actions),
        0 <= k < actions.len(),
    ensures
        tasks_started(actions.take(k + 1)) <= permits_granted(events.take(k)),
        tasks_started(actions.take(k + 1)) + (if holds_permit(phases[k]) && phases[k] != PollPhase::Dispatching {
            1nat
        } else {
            0nat
        }) <= permits_granted(events.take(k)),
    decreases k,
{
    lemma_run_step(phases, events, actions, k);
    let tk = actions.take(k + 1);
    assert(tk.drop_last() =~= actions.take(k));
    assert(tk.last() == actions[k]);
    assert(tasks_started(tk) == tasks_started(actions.take(k)) + if actions[k] is Dispatch {
        1nat
    } else {
        0nat
    });
    if k > 0 {
        let p = k - 1;
        lemma_tasks_follow_grants(phases, events, actions, p);
        lemma_run_step(phases, events, actions, p);
        let gk = events.take(k);
        assert(gk.drop_last() =~= events.take(p));
        assert(gk.last() == events[p]);
        assert(permits_granted(gk) == permits_granted(events.take(p)) + if events[p] is PermitGranted {
            1nat
        } else {
            0nat
        });
        assert(actions.take(p + 1) =~= actions.take(k));
    } else {
        assert(actions.take(0).len() == 0);
        assert(events.take(0).len() == 0);
        assert(tasks_started(actions.take(0)) == 0);
        assert(permits_granted(events.take(0)) == 0);
    }
}

} // verus!
