use tcp_core::state_machine::invalid_transition_message;
use tcp_core::TcpEvent;
use tcp_core::TcpState;
use tcp_core::TcpStateMachine;

const STATES: [TcpState; 11] = [
    TcpState::Closed,
    TcpState::Listen,
    TcpState::SynSent,
    TcpState::SynReceived,
    TcpState::Established,
    TcpState::FinWait1,
    TcpState::FinWait2,
    TcpState::CloseWait,
    TcpState::Closing,
    TcpState::LastAck,
    TcpState::TimeWait,
];

const EVENTS: [TcpEvent; 9] = [
    TcpEvent::Connect,
    TcpEvent::Listen,
    TcpEvent::ReceiveSyn,
    TcpEvent::ReceiveSynAck,
    TcpEvent::ReceiveAck,
    TcpEvent::ReceiveFin,
    TcpEvent::ReceiveRst,
    TcpEvent::Close,
    TcpEvent::Timeout,
];

/// The events that lead a new machine to `state`.
fn way_to(state: TcpState) -> Vec<TcpEvent> {
    let open = vec![TcpEvent::Connect, TcpEvent::ReceiveSynAck];
    let then = |more: &[TcpEvent]| {
        let mut way = open.clone();
        way.extend_from_slice(more);
        way
    };
    match state {
        TcpState::Closed => vec![],
        TcpState::Listen => vec![TcpEvent::Listen],
        TcpState::SynSent => vec![TcpEvent::Connect],
        TcpState::SynReceived => vec![TcpEvent::Listen, TcpEvent::ReceiveSyn],
        TcpState::Established => then(&[]),
        TcpState::FinWait1 => then(&[TcpEvent::Close]),
        TcpState::FinWait2 => then(&[TcpEvent::Close, TcpEvent::ReceiveAck]),
        TcpState::CloseWait => then(&[TcpEvent::ReceiveFin]),
        TcpState::Closing => then(&[TcpEvent::Close, TcpEvent::ReceiveFin]),
        TcpState::LastAck => then(&[TcpEvent::ReceiveFin, TcpEvent::Close]),
        TcpState::TimeWait => then(&[
            TcpEvent::Close,
            TcpEvent::ReceiveAck,
            TcpEvent::ReceiveFin,
        ]),
    }
}

fn machine_in(state: TcpState) -> TcpStateMachine {
    let mut sm = TcpStateMachine::new();
    for event in way_to(state) {
        sm.transition(event).unwrap();
    }
    assert_eq!(sm.current_state(), state);
    sm
}

/// The table of RFC 9293, figure 5, written out once more.
fn table(state: TcpState, event: TcpEvent) -> Option<TcpState> {
    match (state, event) {
        (TcpState::Closed, TcpEvent::Connect) => Some(TcpState::SynSent),
        (TcpState::Closed, TcpEvent::Listen) => Some(TcpState::Listen),
        (TcpState::Listen, TcpEvent::ReceiveSyn) => Some(TcpState::SynReceived),
        (TcpState::SynSent, TcpEvent::ReceiveSynAck) => Some(TcpState::Established),
        (TcpState::SynSent, TcpEvent::ReceiveSyn) => Some(TcpState::SynReceived),
        (TcpState::SynReceived, TcpEvent::ReceiveAck) => Some(TcpState::Established),
        (TcpState::SynReceived, TcpEvent::Close) => Some(TcpState::FinWait1),
        (TcpState::Established, TcpEvent::Close) => Some(TcpState::FinWait1),
        (TcpState::Established, TcpEvent::ReceiveFin) => Some(TcpState::CloseWait),
        (TcpState::FinWait1, TcpEvent::ReceiveAck) => Some(TcpState::FinWait2),
        (TcpState::FinWait1, TcpEvent::ReceiveFin) => Some(TcpState::Closing),
        (TcpState::FinWait2, TcpEvent::ReceiveFin) => Some(TcpState::TimeWait),
        (TcpState::CloseWait, TcpEvent::Close) => Some(TcpState::LastAck),
        (TcpState::Closing, TcpEvent::ReceiveAck) => Some(TcpState::TimeWait),
        (TcpState::LastAck, TcpEvent::ReceiveAck) => Some(TcpState::Closed),
        (TcpState::TimeWait, TcpEvent::Timeout) => Some(TcpState::Closed),
        (TcpState::Listen, TcpEvent::ReceiveRst) => Some(TcpState::Listen),
        (_, TcpEvent::ReceiveRst) => Some(TcpState::Closed),
        _ => None,
    }
}

#[test]
fn test_every_pair_of_the_table() {
    let mut listed = 0;
    for state in STATES {
        for event in EVENTS {
            let mut sm = machine_in(state);
            let before = sm.get_state_history().to_vec();

            let result = sm.transition(event);

            match table(state, event) {
                Some(target) => {
                    listed += 1;
                    assert_eq!(result, Ok(target), "{:?} + {:?}", state, event);
                    assert_eq!(sm.current_state(), target);
                    let after = sm.get_state_history();
                    assert_eq!(after.len(), before.len() + 1);
                    assert_eq!(&after[..before.len()], &before[..]);
                    assert_eq!(after[before.len()], (state, target, event));
                }
                None => {
                    assert_eq!(
                        result,
                        Err(format!("Invalid transition: {:?} + {:?}", state, event)),
                    );
                    assert_eq!(sm.current_state(), state);
                    assert_eq!(sm.get_state_history(), &before[..]);
                }
            }
        }
    }
    // Sixteen named pairs and a reset in each of the eleven states.
    assert_eq!(listed, 27);
}

#[test]
fn test_next_state_agrees_with_the_table() {
    let sm = TcpStateMachine::new();
    for state in STATES {
        for event in EVENTS {
            match table(state, event) {
                Some(target) => assert_eq!(sm.next_state(state, event), Ok(target)),
                None => assert!(sm.next_state(state, event).is_err()),
            }
        }
    }
    assert_eq!(sm.current_state(), TcpState::Closed);
}

#[test]
fn test_pairs_outside_the_table() {
    // Closing what was never opened, in either direction, is not in the table.
    let mut listening = machine_in(TcpState::Listen);
    assert_eq!(
        listening.transition(TcpEvent::Close),
        Err("Invalid transition: Listen + Close".to_string())
    );
    let mut connecting = machine_in(TcpState::SynSent);
    assert_eq!(
        connecting.transition(TcpEvent::Close),
        Err("Invalid transition: SynSent + Close".to_string())
    );
    assert_eq!(connecting.current_state(), TcpState::SynSent);
}

#[test]
fn test_reset_in_every_state() {
    for state in STATES {
        let mut sm = machine_in(state);
        let steps = sm.get_state_history().len();

        assert_eq!(sm.handle_reset(), Ok(()));

        let expected = if state == TcpState::Listen {
            TcpState::Listen
        } else {
            TcpState::Closed
        };
        assert_eq!(sm.current_state(), expected);
        assert_eq!(sm.get_state_history().len(), steps + 1);
        assert_eq!(
            sm.get_state_history()[steps],
            (state, expected, TcpEvent::ReceiveRst)
        );
    }
}

#[test]
fn test_timeout_in_every_state() {
    for state in STATES {
        let mut sm = machine_in(state);
        let steps = sm.get_state_history().len();

        let result = sm.handle_timeout();

        match state {
            TcpState::SynSent | TcpState::SynReceived | TcpState::TimeWait => {
                assert_eq!(result, Ok(()));
                assert_eq!(sm.current_state(), TcpState::Closed);
                assert_eq!(sm.get_state_history().len(), steps + 1);
                assert_eq!(
                    sm.get_state_history()[steps],
                    (state, TcpState::Closed, TcpEvent::Timeout)
                );
            }
            _ => {
                assert_eq!(
                    result,
                    Err(format!("Invalid transition: {:?} + Timeout", state))
                );
                assert_eq!(sm.current_state(), state);
                assert_eq!(sm.get_state_history().len(), steps);
            }
        }
    }
}

#[test]
fn test_named_events_refusals() {
    let mut sm = TcpStateMachine::new();
    assert_eq!(
        sm.complete_active_open(),
        Err("Invalid transition: Closed + ReceiveSynAck".to_string())
    );
    assert_eq!(
        sm.accept_connection(),
        Err("Invalid transition: Closed + ReceiveAck".to_string())
    );
    assert_eq!(
        sm.simultaneous_open(),
        Err("Invalid transition: Closed + ReceiveSyn".to_string())
    );
    assert_eq!(
        sm.active_close(),
        Err("Invalid transition: Closed + Close".to_string())
    );
    assert_eq!(
        sm.passive_close(),
        Err("Invalid transition: Closed + ReceiveFin".to_string())
    );
    assert_eq!(
        sm.simultaneous_close(),
        Err("Invalid transition: Closed + ReceiveFin".to_string())
    );
    assert_eq!(sm.active_open(), Ok(()));
    assert_eq!(
        sm.active_open(),
        Err("Invalid transition: SynSent + Connect".to_string())
    );
    assert_eq!(
        sm.passive_open(),
        Err("Invalid transition: SynSent + Listen".to_string())
    );
    assert_eq!(sm.get_state_history().len(), 1);
}

#[test]
fn test_full_state_walk() {
    let mut sm = TcpStateMachine::new();
    let walk = [
        (TcpEvent::Connect, TcpState::SynSent),
        (TcpEvent::ReceiveSynAck, TcpState::Established),
        (TcpEvent::Close, TcpState::FinWait1),
        (TcpEvent::ReceiveAck, TcpState::FinWait2),
        (TcpEvent::ReceiveFin, TcpState::TimeWait),
        (TcpEvent::Timeout, TcpState::Closed),
    ];
    let mut from = TcpState::Closed;
    for (i, (event, target)) in walk.iter().enumerate() {
        assert_eq!(sm.transition(*event), Ok(*target));
        assert_eq!(sm.get_state_history()[i], (from, *target, *event));
        from = *target;
    }
    assert!(sm.is_closed());
    assert_eq!(sm.get_state_history().len(), 6);
}

#[test]
fn test_data_predicates_in_every_state() {
    for state in STATES {
        let sm = machine_in(state);
        assert_eq!(
            sm.can_send_data(),
            matches!(state, TcpState::Established | TcpState::CloseWait)
        );
        assert_eq!(
            sm.can_receive_data(),
            matches!(
                state,
                TcpState::Established | TcpState::FinWait1 | TcpState::FinWait2
            )
        );
        assert_eq!(sm.is_established(), state == TcpState::Established);
        assert_eq!(sm.is_closed(), state == TcpState::Closed);
    }
}

#[test]
fn test_names_are_the_debug_names() {
    for state in STATES {
        assert_eq!(state.name(), format!("{:?}", state));
    }
    for event in EVENTS {
        assert_eq!(event.name(), format!("{:?}", event));
    }
    assert_eq!(
        invalid_transition_message(TcpState::FinWait1, TcpEvent::ReceiveSynAck),
        "Invalid transition: FinWait1 + ReceiveSynAck"
    );
}

#[test]
fn test_state_diagram_text() {
    let mut sm = TcpStateMachine::new();
    assert_eq!(sm.print_state_diagram(), "");

    sm.transition(TcpEvent::Connect).unwrap();
    sm.transition(TcpEvent::ReceiveFin).unwrap_err();
    sm.transition(TcpEvent::ReceiveSynAck).unwrap();
    assert_eq!(
        sm.print_state_diagram(),
        "1. Closed --[Connect]--> SynSent\n2. SynSent --[ReceiveSynAck]--> Established\n"
    );
}

#[test]
fn test_state_diagram_numbers_have_several_digits() {
    let mut sm = TcpStateMachine::new();
    for _ in 0..60 {
        sm.transition(TcpEvent::Listen).unwrap();
        sm.transition(TcpEvent::ReceiveSyn).unwrap();
        sm.transition(TcpEvent::ReceiveRst).unwrap();
    }
    let diagram = sm.print_state_diagram();
    let lines: Vec<&str> = diagram.lines().collect();
    assert_eq!(lines.len(), 180);
    assert_eq!(lines[8], "9. SynReceived --[ReceiveRst]--> Closed");
    assert_eq!(lines[9], "10. Closed --[Listen]--> Listen");
    assert_eq!(lines[99], "100. Closed --[Listen]--> Listen");
    assert_eq!(lines[100], "101. Listen --[ReceiveSyn]--> SynReceived");
    assert_eq!(lines[179], "180. SynReceived --[ReceiveRst]--> Closed");
    assert!(diagram.ends_with('\n'));
}
