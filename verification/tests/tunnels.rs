use secure_proxy::tunnel::{
    start, step, Copied, Direction, Flow, TunnelAction, TunnelError, TunnelEvent, TunnelState,
};

fn relaying() -> TunnelState {
    let (state, _) = step(start(), TunnelEvent::ReplySent);
    let (state, _) = step(state, TunnelEvent::UpgradeDone);
    let (state, _) = step(state, TunnelEvent::DialDone);
    state
}

fn all_events() -> Vec<TunnelEvent> {
    vec![
        TunnelEvent::ReplySent,
        TunnelEvent::UpgradeDone,
        TunnelEvent::UpgradeFailed,
        TunnelEvent::DialDone,
        TunnelEvent::DialFailed,
        TunnelEvent::Ended(Direction::ClientToTarget, Copied::Bytes(1)),
        TunnelEvent::Ended(Direction::ClientToTarget, Copied::Failed),
        TunnelEvent::Ended(Direction::TargetToClient, Copied::Bytes(2)),
        TunnelEvent::Ended(Direction::TargetToClient, Copied::Failed),
    ]
}

#[test]
fn tunnel_starts_requested() {
    assert_eq!(start(), TunnelState::Requested);
}

#[test]
fn tunnel_runs_from_reply_to_close() {
    let (state, action) = step(start(), TunnelEvent::ReplySent);
    assert_eq!((state, action), (TunnelState::Upgraded, TunnelAction::Upgrade));
    let (state, action) = step(state, TunnelEvent::UpgradeDone);
    assert_eq!((state, action), (TunnelState::Connected, TunnelAction::Dial));
    let (state, action) = step(state, TunnelEvent::DialDone);
    assert_eq!(
        (state, action),
        (
            TunnelState::Relaying { to_target: Flow::Open, to_client: Flow::Open },
            TunnelAction::Relay
        )
    );
    let (state, action) =
        step(state, TunnelEvent::Ended(Direction::ClientToTarget, Copied::Bytes(1_048_576)));
    assert_eq!(
        (state, action),
        (
            TunnelState::Relaying {
                to_target: Flow::Ended(Copied::Bytes(1_048_576)),
                to_client: Flow::Open
            },
            TunnelAction::KeepRelaying
        )
    );
    let (state, action) =
        step(state, TunnelEvent::Ended(Direction::TargetToClient, Copied::Bytes(42)));
    assert_eq!(
        (state, action),
        (
            TunnelState::Closed {
                from_client: Copied::Bytes(1_048_576),
                from_target: Copied::Bytes(42)
            },
            TunnelAction::Close {
                from_client: Copied::Bytes(1_048_576),
                from_target: Copied::Bytes(42)
            }
        )
    );
}

#[test]
fn failed_upgrade_gives_the_tunnel_up() {
    let (state, _) = step(start(), TunnelEvent::ReplySent);
    let (state, action) = step(state, TunnelEvent::UpgradeFailed);
    assert_eq!(state, TunnelState::Errored(TunnelError::Upgrade));
    assert_eq!(action, TunnelAction::Abandon(TunnelError::Upgrade));
}

#[test]
fn failed_dial_gives_the_tunnel_up() {
    let (state, _) = step(start(), TunnelEvent::ReplySent);
    let (state, _) = step(state, TunnelEvent::UpgradeDone);
    let (state, action) = step(state, TunnelEvent::DialFailed);
    assert_eq!(state, TunnelState::Errored(TunnelError::Dial));
    assert_eq!(action, TunnelAction::Abandon(TunnelError::Dial));
}

#[test]
fn half_closed_tunnel_goes_on_the_other_way() {
    let (state, action) =
        step(relaying(), TunnelEvent::Ended(Direction::ClientToTarget, Copied::Bytes(0)));
    assert_eq!(action, TunnelAction::KeepRelaying);
    assert_eq!(
        state,
        TunnelState::Relaying { to_target: Flow::Ended(Copied::Bytes(0)), to_client: Flow::Open }
    );
    let (state, action) =
        step(relaying(), TunnelEvent::Ended(Direction::TargetToClient, Copied::Bytes(9)));
    assert_eq!(action, TunnelAction::KeepRelaying);
    assert_eq!(
        state,
        TunnelState::Relaying { to_target: Flow::Open, to_client: Flow::Ended(Copied::Bytes(9)) }
    );
}

#[test]
fn tunnel_closes_when_the_second_way_ends() {
    let (state, _) =
        step(relaying(), TunnelEvent::Ended(Direction::TargetToClient, Copied::Bytes(9)));
    let (state, action) =
        step(state, TunnelEvent::Ended(Direction::ClientToTarget, Copied::Bytes(5)));
    assert_eq!(
        state,
        TunnelState::Closed { from_client: Copied::Bytes(5), from_target: Copied::Bytes(9) }
    );
    assert_eq!(
        action,
        TunnelAction::Close { from_client: Copied::Bytes(5), from_target: Copied::Bytes(9) }
    );
}

#[test]
fn failed_copy_ends_its_way_only() {
    let (state, action) =
        step(relaying(), TunnelEvent::Ended(Direction::ClientToTarget, Copied::Failed));
    assert_eq!(action, TunnelAction::KeepRelaying);
    let (state, action) =
        step(state, TunnelEvent::Ended(Direction::TargetToClient, Copied::Bytes(u64::MAX)));
    assert_eq!(
        state,
        TunnelState::Closed { from_client: Copied::Failed, from_target: Copied::Bytes(u64::MAX) }
    );
    assert_eq!(
        action,
        TunnelAction::Close { from_client: Copied::Failed, from_target: Copied::Bytes(u64::MAX) }
    );
}

#[test]
fn a_way_ends_once() {
    let (state, _) =
        step(relaying(), TunnelEvent::Ended(Direction::ClientToTarget, Copied::Bytes(5)));
    let (again, action) =
        step(state, TunnelEvent::Ended(Direction::ClientToTarget, Copied::Bytes(6)));
    assert_eq!(again, state);
    assert_eq!(action, TunnelAction::Ignore);
}

#[test]
fn events_out_of_place_are_ignored() {
    let cases = [
        (TunnelState::Requested, TunnelEvent::UpgradeDone),
        (TunnelState::Requested, TunnelEvent::DialDone),
        (TunnelState::Requested, TunnelEvent::UpgradeFailed),
        (TunnelState::Requested, TunnelEvent::Ended(Direction::ClientToTarget, Copied::Bytes(1))),
        (TunnelState::Upgraded, TunnelEvent::ReplySent),
        (TunnelState::Upgraded, TunnelEvent::DialDone),
        (TunnelState::Upgraded, TunnelEvent::DialFailed),
        (TunnelState::Connected, TunnelEvent::ReplySent),
        (TunnelState::Connected, TunnelEvent::UpgradeDone),
        (TunnelState::Connected, TunnelEvent::UpgradeFailed),
        (relaying(), TunnelEvent::ReplySent),
        (relaying(), TunnelEvent::DialDone),
        (relaying(), TunnelEvent::DialFailed),
    ];
    for (state, event) in cases {
        assert_eq!(step(state, event), (state, TunnelAction::Ignore));
    }
}

#[test]
fn end_states_take_no_event() {
    let ends = [
        TunnelState::Closed { from_client: Copied::Bytes(1), from_target: Copied::Failed },
        TunnelState::Errored(TunnelError::Upgrade),
        TunnelState::Errored(TunnelError::Dial),
    ];
    for state in ends {
        for event in all_events() {
            assert_eq!(step(state, event), (state, TunnelAction::Ignore));
        }
    }
}

#[test]
fn dial_is_asked_for_after_the_upgrade_only() {
    let states = [
        TunnelState::Requested,
        TunnelState::Upgraded,
        TunnelState::Connected,
        relaying(),
        TunnelState::Closed { from_client: Copied::Bytes(1), from_target: Copied::Bytes(2) },
        TunnelState::Errored(TunnelError::Dial),
    ];
    for state in states {
        for event in all_events() {
            let (_, action) = step(state, event);
            let dials = action == TunnelAction::Dial;
            assert_eq!(
                dials,
                state == TunnelState::Upgraded && event == TunnelEvent::UpgradeDone
            );
        }
    }
}
