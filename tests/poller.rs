use farm_session::poller::{LoginPoller, PollAction, PollEvent, PollState, LOGIN_TIMEOUT_SECS, POLL_INTERVAL_SECS};
use farm_session::session::SessionTable;

fn not_yet() -> PollEvent {
    PollEvent::Status { ok: Some(0), ticket: None }
}

#[test]
fn never_scanned_times_out_without_a_session() {
    let mut p = LoginPoller::with_defaults();
    let table: SessionTable<u32> = SessionTable::new();
    let mut checks = 0;
    let mut starts = 0;
    let mut t: u64 = 0;
    loop {
        match p.step(PollEvent::Tick { elapsed_secs: t }) {
            PollAction::CheckStatus => {
                checks += 1;
                match p.step(not_yet()) {
                    PollAction::Wait => {}
                    PollAction::StartSession { .. } => starts += 1,
                    other => panic!("unexpected {:?}", other),
                }
            }
            PollAction::Stop => break,
            PollAction::StartSession { .. } => starts += 1,
            other => panic!("unexpected {:?}", other),
        }
        t += POLL_INTERVAL_SECS;
        assert!(t <= 302);
    }
    assert_eq!(p.state(), PollState::TimedOut);
    assert_eq!(t, 300);
    assert_eq!(checks, 150);
    assert_eq!(starts, 0);
    assert!(!table.contains_key(&"user".to_string()));
    assert!(matches!(p.step(not_yet()), PollAction::Stop));
}

#[test]
fn scan_at_four_seconds_exchanges_once_and_starts_once() {
    let mut p = LoginPoller::with_defaults();
    let mut table: SessionTable<u32> = SessionTable::new();
    let mut exchanges: Vec<String> = Vec::new();
    let mut spawned = 0;
    let mut status_checks = 0;
    let mut t: u64 = 0;
    while !p.is_finished() {
        let action = p.step(PollEvent::Tick { elapsed_secs: t });
        if let PollAction::CheckStatus = action {
            status_checks += 1;
            let reply = if t == 4 {
                PollEvent::Status { ok: Some(1), ticket: Some("T".to_string()) }
            } else {
                not_yet()
            };
            if let PollAction::ExchangeTicket { ticket } = p.step(reply) {
                exchanges.push(ticket.clone());
                match p.step(PollEvent::AuthCode { code: format!("code-for-{}", ticket) }) {
                    PollAction::StartSession { code } => {
                        assert_eq!(code, "code-for-T");
                        spawned += 1;
                        table.insert_replacing("user".to_string(), 9);
                    }
                    other => panic!("unexpected {:?}", other),
                }
            }
        }
        t += 2;
        assert!(t < 20);
    }
    assert_eq!(exchanges, vec!["T".to_string()]);
    assert_eq!(spawned, 1);
    assert_eq!(status_checks, 3);
    assert_eq!(p.state(), PollState::Completed);
    assert!(table.contains_key(&"user".to_string()));
    assert!(matches!(p.step(PollEvent::Tick { elapsed_secs: t }), PollAction::Stop));
}

#[test]
fn deadline_does_not_apply_after_authorization() {
    let mut p = LoginPoller::new(10, 2);
    assert!(matches!(p.step(PollEvent::Tick { elapsed_secs: 8 }), PollAction::CheckStatus));
    let a = p.step(PollEvent::Status { ok: Some(1), ticket: Some("tk".to_string()) });
    assert!(matches!(a, PollAction::ExchangeTicket { ref ticket } if ticket == "tk"));
    assert_eq!(p.state(), PollState::Authorized);
    assert!(matches!(p.step(PollEvent::Tick { elapsed_secs: 50 }), PollAction::Wait));
    assert_eq!(p.state(), PollState::Authorized);
    let a = p.step(PollEvent::AuthCode { code: "final".to_string() });
    assert!(matches!(a, PollAction::StartSession { ref code } if code == "final"));
    assert_eq!(p.state(), PollState::Completed);
    assert!(matches!(p.step(PollEvent::AuthCode { code: "again".to_string() }), PollAction::Stop));
}

#[test]
fn tick_at_deadline_times_out() {
    let mut p = LoginPoller::new(10, 2);
    assert!(matches!(p.step(PollEvent::Tick { elapsed_secs: 9 }), PollAction::CheckStatus));
    assert!(matches!(p.step(PollEvent::Tick { elapsed_secs: 10 }), PollAction::Stop));
    assert_eq!(p.state(), PollState::TimedOut);
    let late = PollEvent::Status { ok: Some(1), ticket: Some("x".to_string()) };
    assert!(matches!(p.step(late), PollAction::Stop));
    assert_eq!(p.state(), PollState::TimedOut);
}

#[test]
fn failed_status_check_ends_the_attempt() {
    let mut p = LoginPoller::with_defaults();
    assert!(matches!(p.step(PollEvent::StatusFailed), PollAction::Stop));
    assert_eq!(p.state(), PollState::Failed);
    assert!(p.is_finished());
}

#[test]
fn confirmation_without_ticket_fails() {
    let mut p = LoginPoller::with_defaults();
    assert!(matches!(p.step(PollEvent::Status { ok: Some(1), ticket: None }), PollAction::Stop));
    assert_eq!(p.state(), PollState::Failed);
}

#[test]
fn failed_exchange_ends_the_attempt() {
    let mut p = LoginPoller::with_defaults();
    p.step(PollEvent::Status { ok: Some(1), ticket: Some("t".to_string()) });
    assert!(matches!(p.step(PollEvent::ExchangeFailed), PollAction::Stop));
    assert_eq!(p.state(), PollState::Failed);
}

#[test]
fn missing_or_other_ok_keeps_waiting() {
    let mut p = LoginPoller::with_defaults();
    assert!(matches!(p.step(PollEvent::Status { ok: None, ticket: None }), PollAction::Wait));
    assert!(matches!(p.step(PollEvent::Status { ok: Some(2), ticket: Some("t".to_string()) }), PollAction::Wait));
    assert!(matches!(p.step(PollEvent::AuthCode { code: "early".to_string() }), PollAction::Wait));
    assert_eq!(p.state(), PollState::AwaitingScan);
}

#[test]
fn defaults_are_three_hundred_and_two_seconds() {
    let p = LoginPoller::with_defaults();
    assert_eq!(p.timeout_secs(), LOGIN_TIMEOUT_SECS);
    assert_eq!(p.timeout_secs(), 300);
    assert_eq!(p.interval_secs(), 2);
    assert_eq!(p.state(), PollState::AwaitingScan);
    assert!(!p.is_finished());
}
