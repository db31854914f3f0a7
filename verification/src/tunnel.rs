//! The life of one tunnel.
//!
//! A tunnel starts when a `CONNECT` request is admitted. The reply goes out,
//! the client's connection is taken over as a raw stream, the target is
//! dialled, and bytes are copied both ways until each way has ended. The
//! caller does the work on the connections and reports what came of it;
//! `step` says where the tunnel stands then and what is to be done next.

use vstd::prelude::*;

verus! {

/// One of the two ways bytes are copied.
#[derive(Clone, Copy, Debug, PartialEq, Eq, Structural)]
pub enum Direction {
    ClientToTarget,
    TargetToClient,
}

/// How copying one way ended.
#[derive(Clone, Copy, Debug, PartialEq, Eq, Structural)]
pub enum Copied {
    /// The source reached its end after this many bytes.
    Bytes(u64),
    /// Reading or writing failed.
    Failed,
}

/// Copying one way: still going, or ended.
#[derive(Clone, Copy, Debug, PartialEq, Eq, Structural)]
pub enum Flow {
    Open,
    Ended(Copied),
}

/// Why a tunnel was given up.
#[derive(Clone, Copy, Debug, PartialEq, Eq, Structural)]
pub enum TunnelError {
    /// The client's connection could not be taken over.
    Upgrade,
    /// The target could not be reached.
    Dial,
}

/// Where a tunnel stands.
#[derive(Clone, Copy, Debug, PartialEq, Eq, Structural)]
pub enum TunnelState {
    /// The request is admitted and its target resolved; the reply is on its
    /// way.
    Requested,
    /// The reply is sent; the client's connection is being taken over.
    Upgraded,
    /// The client's connection is a raw stream; the target is being dialled.
    Connected,
    /// Both connections are open and bytes are copied.
    Relaying { to_target: Flow, to_client: Flow },
    /// Both ways have ended.
    Closed { from_client: Copied, from_target: Copied },
    /// The tunnel was given up before it relayed.
    Errored(TunnelError),
}

/// What the caller reports.
#[derive(Clone, Copy, Debug, PartialEq, Eq, Structural)]
pub enum TunnelEvent {
    ReplySent,
    UpgradeDone,
    UpgradeFailed,
    DialDone,
    DialFailed,
    /// Copying in one direction has ended.
    Ended(Direction, Copied),
}

/// What the caller is to do next.
#[derive(Clone, Copy, Debug, PartialEq, Eq, Structural)]
pub enum TunnelAction {
    /// Take over the client's connection.
    Upgrade,
    /// Open a connection to the target.
    Dial,
    /// Copy bytes both ways.
    Relay,
    /// Go on copying the way that is still open.
    KeepRelaying,
    /// Release both connections and record what was copied.
    Close { from_client: Copied, from_target: Copied },
    /// Release what is held and record the failure.
    Abandon(TunnelError),
    /// Nothing: the event has no place in this state.
    Ignore,
}

/// The state after `event`, and what is to be done.
pub open spec fn next(state: TunnelState, event: TunnelEvent) -> (TunnelState, TunnelAction) {
    match (state, event) {
        (TunnelState::Requested, TunnelEvent::ReplySent) => (
            TunnelState::Upgraded,
            TunnelAction::Upgrade,
        ),
        (TunnelState::Upgraded, TunnelEvent::UpgradeDone) => (
            TunnelState::Connected,
            TunnelAction::Dial,
        ),
        (TunnelState::Upgraded, TunnelEvent::UpgradeFailed) => (
            TunnelState::Errored(TunnelError::Upgrade),
            TunnelAction::Abandon(TunnelError::Upgrade),
        ),
        (TunnelState::Connected, TunnelEvent::DialDone) => (
            TunnelState::Relaying { to_target: Flow::Open, to_client: Flow::Open },
            TunnelAction::Relay,
        ),
        (TunnelState::Connected, TunnelEvent::DialFailed) => (
            TunnelState::Errored(TunnelError::Dial),
            TunnelAction::Abandon(TunnelError::Dial),
        ),
        (
            TunnelState::Relaying { to_target: Flow::Open, to_client: from_target },
            TunnelEvent::Ended(Direction::ClientToTarget, copied),
        ) => match from_target {
            Flow::Open => (
                TunnelState::Relaying { to_target: Flow::Ended(copied), to_client: from_target },
                TunnelAction::KeepRelaying,
            ),
            Flow::Ended(other) => (
                TunnelState::Closed { from_client: copied, from_target: other },
                TunnelAction::Close { from_client: copied, from_target: other },
            ),
        },
        (
            TunnelState::Relaying { to_target: from_client, to_client: Flow::Open },
            TunnelEvent::Ended(Direction::TargetToClient, copied),
        ) => match from_client {
            Flow::Open => (
                TunnelState::Relaying { to_target: from_client, to_client: Flow::Ended(copied) },
                TunnelAction::KeepRelaying,
            ),
            Flow::Ended(other) => (
                TunnelState::Closed { from_client: other, from_target: copied },
                TunnelAction::Close { from_client: other, from_target: copied },
            ),
        },
        _ => (state, TunnelAction::Ignore),
    }
}

/// How far a tunnel has come. The end states are furthest.
pub open spec fn progress(state: TunnelState) -> nat {
    match state {
        TunnelState::Requested => 0,
        TunnelState::Upgraded => 1,
        TunnelState::Connected => 2,
        TunnelState::Relaying { to_target: Flow::Open, to_client: Flow::Open } => 3,
        TunnelState::Relaying { .. } => 4,
        TunnelState::Closed { .. } => 5,
        TunnelState::Errored(_) => 5,
    }
}

/// The state after all of `events`, one after the other.
pub open spec fn run(state: TunnelState, events: Seq<TunnelEvent>) -> TunnelState
    decreases events.len(),
{
    if events.len() == 0 {
        state
    } else {
        next(run(state, events.drop_last()), events.last()).0
    }
}

/// The state of a tunnel that has just been asked for.
pub fn start() -> (state: TunnelState)
    ensures
        state == TunnelState::Requested,
{
    TunnelState::Requested
}

/// Takes the tunnel from `state` through `event`.
pub fn step(state: TunnelState, event: TunnelEvent) -> (r: (TunnelState, TunnelAction))
    ensures
        r == next(state, event),
{
    match state {
        TunnelState::Requested => match event {
            TunnelEvent::ReplySent => (TunnelState::Upgraded, TunnelAction::Upgrade),
            _ => (state, TunnelAction::Ignore),
        },
        TunnelState::Upgraded => match event {
            TunnelEvent::UpgradeDone => (TunnelState::Connected, TunnelAction::Dial),
            TunnelEvent::UpgradeFailed => (
                TunnelState::Errored(TunnelError::Upgrade),
                TunnelAction::Abandon(TunnelError::Upgrade),
            ),
            _ => (state, TunnelAction::Ignore),
        },
        TunnelState::Connected => match event {
            TunnelEvent::DialDone => (
                TunnelState::Relaying { to_target: Flow::Open, to_client: Flow::Open },
                TunnelAction::Relay,
            ),
            TunnelEvent::DialFailed => (
                TunnelState::Errored(TunnelError::Dial),
                TunnelAction::Abandon(TunnelError::Dial),
            ),
            _ => (state, TunnelAction::Ignore),
        },
        TunnelState::Relaying { to_target: from_client, to_client: from_target } => match event {
            TunnelEvent::Ended(direction, copied) => {
                let (ending, other) = match direction {
                    Direction::ClientToTarget => (from_client, from_target),
                    Direction::TargetToClient => (from_target, from_client),
                };
                match (ending, other) {
                    (Flow::Ended(_), _) => (state, TunnelAction::Ignore),
                    (Flow::Open, Flow::Open) => match direction {
                        Direction::ClientToTarget => (
                            TunnelState::Relaying { to_target: Flow::Ended(copied), to_client: from_target },
                            TunnelAction::KeepRelaying,
                        ),
                        Direction::TargetToClient => (
                            TunnelState::Relaying { to_target: from_client, to_client: Flow::Ended(copied) },
                            TunnelAction::KeepRelaying,
                        ),
                    },
                    (Flow::Open, Flow::Ended(done)) => match direction {
                        Direction::ClientToTarget => (
                            TunnelState::Closed { from_client: copied, from_target: done },
                            TunnelAction::Close { from_client: copied, from_target: done },
                        ),
                        Direction::TargetToClient => (
                            TunnelState::Closed { from_client: done, from_target: copied },
                            TunnelAction::Close { from_client: done, from_target: copied },
                        ),
                    },
                }
            },
            _ => (state, TunnelAction::Ignore),
        },
        TunnelState::Closed { .. } => (state, TunnelAction::Ignore),
        TunnelState::Errored(_) => (state, TunnelAction::Ignore),
    }
}

/// A tunnel that has closed or was given up stays as it is, and asks
/// for nothing more.
pub proof fn end_states_stay(state: TunnelState, event: TunnelEvent)
    requires
        state is Closed || state is Errored,
    ensures
        next(state, event) == (state, TunnelAction::Ignore),
{
}

/// A tunnel never goes back, and an event that is not ignored takes it
/// further.
pub proof fn tunnel_moves_forward(state: TunnelState, event: TunnelEvent)
    ensures
        progress(state) <= progress(next(state, event).0),
        next(state, event).1 != TunnelAction::Ignore ==> progress(state) < progress(
            next(state, event).0,
        ),
        next(state, event).1 == TunnelAction::Ignore ==> next(state, event).0 == state,
{
}

/// The target is dialled only once the reply is sent and the client's
/// connection taken over: the one step that asks to dial is the one from
/// `Upgraded` on `UpgradeDone`, and `Upgraded` is reached from `Requested`
/// on `ReplySent` only. Relaying starts from `Connected` on `DialDone` only.
pub proof fn dial_follows_reply_and_upgrade(state: TunnelState, event: TunnelEvent)
    ensures
        next(state, event).1 == TunnelAction::Dial <==> state == TunnelState::Upgraded && event
            == TunnelEvent::UpgradeDone,
        next(state, event).0 == TunnelState::Upgraded && state != TunnelState::Upgraded
            <==> state == TunnelState::Requested && event == TunnelEvent::ReplySent,
        next(state, event).1 == TunnelAction::Relay <==> state == TunnelState::Connected && event
            == TunnelEvent::DialDone,
{
}

/// A tunnel is given up only when taking over the client's connection
/// fails or when the dial fails.
pub proof fn errors_come_from_upgrade_and_dial(state: TunnelState, event: TunnelEvent)
    requires
        !(state is Errored),
        next(state, event).0 is Errored,
    ensures
        (state == TunnelState::Upgraded && event == TunnelEvent::UpgradeFailed) || (state
            == TunnelState::Connected && event == TunnelEvent::DialFailed),
{
}

/// When one way ends while the other is open, the tunnel goes on relaying
/// and the other way stays open: a half-closed tunnel still carries what
/// comes the other way.
pub proof fn half_close_keeps_the_other_way(direction: Direction, copied: Copied)
    ensures
        next(
            TunnelState::Relaying { to_target: Flow::Open, to_client: Flow::Open },
            TunnelEvent::Ended(direction, copied),
        ) == (
            match direction {
                Direction::ClientToTarget => TunnelState::Relaying {
                    to_target: Flow::Ended(copied),
                    to_client: Flow::Open,
                },
                Direction::TargetToClient => TunnelState::Relaying {
                    to_target: Flow::Open,
                    to_client: Flow::Ended(copied),
                },
            },
            TunnelAction::KeepRelaying,
        ),
{
}

/// A tunnel closes just when the second of its two ways ends, and it
/// records then what was reported for each way.
pub proof fn closes_when_both_ways_ended(state: TunnelState, event: TunnelEvent)
    requires
        !(state is Closed),
    ensures
        next(state, event).0 is Closed <==> second_way_ends(state, event),
        second_way_ends(state, event) ==> next(state, event) == (
            closed_with(state, event),
            TunnelAction::Close {
                from_client: closed_with(state, event)->from_client,
                from_target: closed_with(state, event)->from_target,
            },
        ),
{
}

/// `event` reports the end of the one way that is still open in `state`.
pub open spec fn second_way_ends(state: TunnelState, event: TunnelEvent) -> bool {
    match (state, event) {
        (
            TunnelState::Relaying { to_target: Flow::Open, to_client: Flow::Ended(_) },
            TunnelEvent::Ended(Direction::ClientToTarget, _),
        ) => true,
        (
            TunnelState::Relaying { to_target: Flow::Ended(_), to_client: Flow::Open },
            TunnelEvent::Ended(Direction::TargetToClient, _),
        ) => true,
        _ => false,
    }
}

/// The closed state that holds what was copied each way: what `state`
/// holds for the way that had ended, and what `event` reports for the other.
pub open spec fn closed_with(state: TunnelState, event: TunnelEvent) -> TunnelState {
    match (state, event) {
        (
            TunnelState::Relaying { to_target: Flow::Open, to_client: Flow::Ended(down) },
            TunnelEvent::Ended(Direction::ClientToTarget, up),
        ) => TunnelState::Closed { from_client: up, from_target: down },
        (
            TunnelState::Relaying { to_target: Flow::Ended(up), to_client: Flow::Open },
            TunnelEvent::Ended(Direction::TargetToClient, down),
        ) => TunnelState::Closed { from_client: up, from_target: down },
        _ => state,
    }
}

/// Among the first `n` events the reply was reported sent.
pub open spec fn replied_by(events: Seq<TunnelEvent>, n: int) -> bool {
    exists|i: int| 0 <= i < n && i < events.len() && #[trigger] events[i] == TunnelEvent::ReplySent
}

/// Among the first `n` events the client's connection was reported taken
/// over, after the reply was sent.
pub open spec fn upgraded_by(events: Seq<TunnelEvent>, n: int) -> bool {
    exists|i: int|
        0 <= i < n && i < events.len() && #[trigger] events[i] == TunnelEvent::UpgradeDone
            && replied_by(events, i)
}

/// Among the first `n` events the target was reported reached, after the
/// client's connection was taken over.
pub open spec fn dialled_by(events: Seq<TunnelEvent>, n: int) -> bool {
    exists|i: int|
        0 <= i < n && i < events.len() && #[trigger] events[i] == TunnelEvent::DialDone
            && upgraded_by(events, i)
}

/// What the place a tunnel has come to says of the events that took it
/// there.
spec fn accounts_for(state: TunnelState, events: Seq<TunnelEvent>) -> bool {
    match state {
        TunnelState::Requested => true,
        TunnelState::Upgraded => replied_by(events, events.len() as int),
        TunnelState::Connected => upgraded_by(events, events.len() as int),
        TunnelState::Relaying { .. } => dialled_by(events, events.len() as int),
        TunnelState::Closed { .. } => dialled_by(events, events.len() as int),
        TunnelState::Errored(_) => true,
    }
}

proof fn lemma_longer_trace(events: Seq<TunnelEvent>, n: int)
    requires
        events.len() > 0,
        0 <= n < events.len(),
    ensures
        replied_by(events.drop_last(), n) ==> replied_by(events, n),
        upgraded_by(events.drop_last(), n) ==> upgraded_by(events, n),
        dialled_by(events.drop_last(), n) ==> dialled_by(events, n),
    decreases n,
{
    let before = events.drop_last();
    if replied_by(before, n) {
        let i = choose|i: int|
            0 <= i < n && i < before.len() && #[trigger] before[i] == TunnelEvent::ReplySent;
        assert(events[i] == before[i]);
    }
    if upgraded_by(before, n) {
        let i = choose|i: int|
            0 <= i < n && i < before.len() && #[trigger] before[i] == TunnelEvent::UpgradeDone
                && replied_by(before, i);
        lemma_longer_trace(events, i);
        assert(events[i] == before[i]);
    }
    if dialled_by(before, n) {
        let i = choose|i: int|
            0 <= i < n && i < before.len() && #[trigger] before[i] == TunnelEvent::DialDone
                && upgraded_by(before, i);
        lemma_longer_trace(events, i);
        assert(events[i] == before[i]);
    }
}

proof fn lemma_trace_accounted(events: Seq<TunnelEvent>)
    ensures
        accounts_for(run(TunnelState::Requested, events), events),
    decreases events.len(),
{
    if events.len() > 0 {
        let last = events.len() - 1;
        lemma_trace_accounted(events.drop_last());
        lemma_longer_trace(events, last);
        assert(events[last] == events.last());
    }
}

/// However a tunnel is driven, it relays only after the reply was sent,
/// then the client's connection taken over, then the target reached, in
/// this order.
pub proof fn relay_follows_the_handshake(events: Seq<TunnelEvent>)
    requires
        run(TunnelState::Requested, events) is Relaying || run(TunnelState::Requested, events)
            is Closed,
    ensures
        dialled_by(events, events.len() as int),
{
    lemma_trace_accounted(events);
}

} // verus!
