use lunatic_distributed::accept::{
    connection_step, server_step, session_step, ConnectionEvent, ConnectionStep, ServerStep,
    SessionStep,
};
use lunatic_distributed::retry::{RetryDecision, RetryState};

/// Plays a connect loop against a fixed sequence of attempt outcomes,
/// as the transport would: one attempt per Attempt decision, stopping
/// at the first success. Returns the attempts performed and whether one
/// succeeded.
fn play_connect(retries: u32, outcomes: &[bool]) -> (u32, bool) {
    let mut state = RetryState::new(retries);
    let mut attempts = 0u32;
    loop {
        match state.decide() {
            RetryDecision::GiveUp => return (attempts, false),
            RetryDecision::Attempt => {
                let success = outcomes[attempts as usize];
                attempts += 1;
                if success {
                    return (attempts, true);
                }
                state.record_failure();
            }
        }
    }
}

#[test]
fn unreachable_peer_gets_exactly_n_attempts() {
    // Retry bound: every attempt fails; exactly the budget is spent,
    // then the named failure — no attempt after the last.
    assert_eq!(play_connect(4, &[false; 8]), (4, false));
    assert_eq!(play_connect(1, &[false; 8]), (1, false));
}

#[test]
fn zero_budget_never_attempts() {
    assert_eq!(play_connect(0, &[]), (0, false));
}

#[test]
fn connect_stops_at_first_success() {
    assert_eq!(play_connect(5, &[false, false, true, true, false]), (3, true));
    assert_eq!(play_connect(5, &[true; 5]), (1, true));
}

#[test]
fn server_loop_reports_its_exit() {
    assert_eq!(server_step(true), ServerStep::SpawnConnectionHandler);
    assert_eq!(server_step(false), ServerStep::ReportServerExit);
}

#[test]
fn connection_events_map_to_steps() {
    assert_eq!(
        connection_step(ConnectionEvent::Closed),
        ConnectionStep::ExitLoop
    );
    assert_eq!(
        connection_step(ConnectionEvent::StreamAccepted),
        ConnectionStep::SpawnStreamHandler
    );
    assert_eq!(
        connection_step(ConnectionEvent::AcceptFailedLocallyClosed),
        ConnectionStep::ExitLoop
    );
    assert_eq!(
        connection_step(ConnectionEvent::AcceptFailedTransient),
        ConnectionStep::ContinueAccepting
    );
}

#[test]
fn transient_failure_keeps_the_loop_accepting() {
    // Accept-loop resilience: a transient failure, then a stream — the
    // loop survives the failure and still handles the stream.
    let events = [
        ConnectionEvent::StreamAccepted,
        ConnectionEvent::AcceptFailedTransient,
        ConnectionEvent::StreamAccepted,
        ConnectionEvent::Closed,
    ];
    let mut handled = 0;
    for event in events {
        match connection_step(event) {
            ConnectionStep::SpawnStreamHandler => handled += 1,
            ConnectionStep::ContinueAccepting => {}
            ConnectionStep::ExitLoop => break,
        }
    }
    assert_eq!(handled, 2);
}

#[test]
fn failed_deserialization_keeps_the_session() {
    // Fault isolation: a message that fails to deserialize is
    // discarded; the next well-formed one is still dispatched.
    let turns = [(true, false), (true, true), (false, false)];
    let mut dispatched = 0;
    let mut discarded = 0;
    for (read_complete, deserialized) in turns {
        match session_step(read_complete, deserialized) {
            SessionStep::DispatchAndContinue => dispatched += 1,
            SessionStep::DiscardAndContinue => discarded += 1,
            SessionStep::EndSession => break,
        }
    }
    assert_eq!((dispatched, discarded), (1, 1));
}

#[test]
fn only_a_failed_read_ends_the_session() {
    assert_eq!(session_step(true, true), SessionStep::DispatchAndContinue);
    assert_eq!(session_step(true, false), SessionStep::DiscardAndContinue);
    assert_eq!(session_step(false, true), SessionStep::EndSession);
    assert_eq!(session_step(false, false), SessionStep::EndSession);
}
