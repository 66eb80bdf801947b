//! The phases of a ratchet.

use std::sync::atomic::{AtomicU64, Ordering};
use std::sync::Arc;

use construct_core::orchestration::clock::Clock;
use construct_core::orchestration::session_machine::{
    Effect, Event, Phase, SessionMachine, TearDownCause, END_SESSION_COOLDOWN_MS,
    END_SESSION_EVIDENCE_RETRY_MS, END_SESSION_MAX_UNACKED_RETRIES, HEAL_COOLDOWN_MS,
    OPENING_CONFIRM_WINDOW_MS, OPENING_TTL_MS, PEER_TEARDOWN_QUIET_MS, REOPEN_QUIET_MS,
    RESPONDER_OVERRIDE_MS, SRI_RETRY_MS, UNACKED_BUDGET_TTL_MS,
};

struct MockClock {
    now: AtomicU64,
}

impl MockClock {
    fn new(start: u64) -> Self {
        MockClock { now: AtomicU64::new(start) }
    }

    fn advance_ms(&self, ms: u64) {
        self.now.fetch_add(ms, Ordering::SeqCst);
    }
}

impl Clock for MockClock {
    fn now_ms(&self) -> u64 {
        self.now.load(Ordering::SeqCst)
    }
}


fn machine(start: u64) -> (SessionMachine<MockClock>, Arc<MockClock>) {
    let clock = Arc::new(MockClock::new(start));
    (SessionMachine::new(clock.clone()), clock)
}

#[test]
fn a_second_open_waits_behind_the_first() {
    let (mut m, _) = machine(1_000);
    assert_eq!(m.handle("dev", Event::WantToOpen), Effect::Open);
    assert_eq!(m.handle("dev", Event::WantToOpen), Effect::WaitForOpen);
}

#[test]
fn an_abandoned_open_stops_blocking_after_its_ttl() {
    let (mut m, clock) = machine(1_000);
    assert_eq!(m.handle("dev", Event::WantToOpen), Effect::Open);
    clock.advance_ms(OPENING_TTL_MS + 1);
    assert_eq!(m.phase("dev"), Phase::Absent);
    assert_eq!(m.handle("dev", Event::WantToOpen), Effect::Open);
}

#[test]
fn a_finished_open_releases_the_in_flight_lock() {
    let (mut m, _) = machine(1_000);
    m.handle("dev", Event::WantToOpen);
    m.handle("dev", Event::OpenFinished);
    assert_eq!(m.phase("dev"), Phase::Absent);
    assert_eq!(m.handle("dev", Event::WantToOpen), Effect::Open);
}

#[test]
fn an_announced_opening_waits_to_be_acknowledged() {
    let (mut m, _) = machine(1_000);
    m.handle("dev", Event::WantToOpen);
    m.handle("dev", Event::OpenFinished);
    assert_eq!(m.phase("dev"), Phase::Absent, "the init itself is done");
    m.handle("dev", Event::SriAnnounced);
    assert_eq!(
        m.phase("dev"),
        Phase::Opening {
            since_ms: 1_000,
            unacked_sri: 1
        }
    );
    assert_eq!(m.handle("dev", Event::WantToOpen), Effect::WaitForOpen);
}

#[test]
fn the_peers_acknowledgement_ends_the_wait() {
    let (mut m, _) = machine(1_000);
    m.handle("dev", Event::SriAnnounced);
    m.handle("dev", Event::PeerAcked);
    assert_eq!(m.phase("dev"), Phase::Absent);
}

#[test]
fn an_unanswered_announcement_is_re_sent_on_the_retry_cadence() {
    let (mut m, clock) = machine(1_000);
    m.handle("dev", Event::SriAnnounced);
    clock.advance_ms(SRI_RETRY_MS);
    assert!(matches!(
        m.handle("dev", Event::Timeout),
        Effect::ResendSri { .. }
    ));
    clock.advance_ms(SRI_RETRY_MS);
    assert!(matches!(
        m.handle("dev", Event::Timeout),
        Effect::ResendSri { .. }
    ));
}

#[test]
fn another_alarm_does_not_bring_the_retry_forward() {
    let (mut m, clock) = machine(1_000);
    m.handle("dev", Event::SriAnnounced);
    clock.advance_ms(SRI_RETRY_MS / 2);
    assert_eq!(m.handle("dev", Event::Timeout), Effect::Nothing);
}

#[test]
fn the_last_retry_is_armed_for_the_end_of_the_window() {
    let (mut m, clock) = machine(1_000);
    m.handle("dev", Event::SriAnnounced);
    clock.advance_ms(SRI_RETRY_MS);
    assert!(matches!(
        m.handle("dev", Event::Timeout),
        Effect::ResendSri { .. }
    ));
    clock.advance_ms(SRI_RETRY_MS);
    assert_eq!(
        m.handle("dev", Event::Timeout),
        Effect::ResendSri {
            retry_after_ms: OPENING_CONFIRM_WINDOW_MS - 2 * SRI_RETRY_MS + 100
        }
    );
}

#[test]
fn the_wait_is_given_up_when_the_window_runs_out() {
    let (mut m, clock) = machine(1_000);
    m.handle("dev", Event::SriAnnounced);
    clock.advance_ms(OPENING_CONFIRM_WINDOW_MS);
    assert_eq!(m.handle("dev", Event::Timeout), Effect::GiveUpOpening);
    assert_eq!(m.phase("dev"), Phase::Absent);
    assert_eq!(m.handle("dev", Event::WantToOpen), Effect::Open);
}

#[test]
fn an_init_still_running_has_nothing_to_re_send() {
    let (mut m, clock) = machine(1_000);
    m.handle("dev", Event::WantToOpen);
    clock.advance_ms(SRI_RETRY_MS);
    assert_eq!(m.handle("dev", Event::Timeout), Effect::Nothing);
}

#[test]
fn an_opening_that_announced_nothing_has_no_retry() {
    let (mut m, clock) = machine(1_000);
    m.handle("dev", Event::WantToOpen);
    m.handle("dev", Event::OpenFinished);
    clock.advance_ms(SRI_RETRY_MS);
    assert_eq!(m.handle("dev", Event::Timeout), Effect::Nothing);
    assert!(!m.awaits_acknowledgement("dev"));
}

#[test]
fn the_peers_teardown_does_not_take_over_an_unanswered_announcement() {
    let (mut m, _) = machine(1_000);
    m.handle("dev", Event::SriAnnounced);
    assert_eq!(m.handle("dev", Event::PeerToreDown), Effect::Nothing);
    assert_eq!(
        m.phase("dev"),
        Phase::Opening {
            since_ms: 1_000,
            unacked_sri: 1
        },
        "the announcement survives; the retry is what re-sends it if it never opened"
    );
    assert_eq!(m.handle("dev", Event::WantToOpen), Effect::WaitForOpen);
}

#[test]
fn the_peers_teardown_still_takes_over_an_init_in_flight() {
    let (mut m, _) = machine(1_000);
    m.handle("dev", Event::WantToOpen);
    m.handle("dev", Event::PeerToreDown);
    assert_eq!(
        m.handle("dev", Event::WantToOpen),
        Effect::DeferOpen {
            retry_after_ms: REOPEN_QUIET_MS + 100
        }
    );
}

#[test]
fn an_open_right_after_the_peers_teardown_waits_for_their_flush() {
    let (mut m, _) = machine(1_000);
    m.handle("dev", Event::PeerToreDown);
    assert_eq!(
        m.handle("dev", Event::WantToOpen),
        Effect::DeferOpen {
            retry_after_ms: REOPEN_QUIET_MS + 100
        }
    );
}

#[test]
fn the_open_goes_once_the_flush_has_had_its_moment() {
    let (mut m, clock) = machine(1_000);
    m.handle("dev", Event::PeerToreDown);
    clock.advance_ms(REOPEN_QUIET_MS);
    assert_eq!(m.handle("dev", Event::WantToOpen), Effect::Open);
}

#[test]
fn the_open_quiet_ends_long_before_the_teardown_quiet_does() {
    let (mut m, clock) = machine(1_000);
    m.handle("dev", Event::PeerToreDown);
    clock.advance_ms(REOPEN_QUIET_MS + 1);
    assert_eq!(m.handle("dev", Event::WantToOpen), Effect::Open);
}

#[test]
fn a_flush_of_teardowns_is_one_deferral_run_from_the_last() {
    let (mut m, clock) = machine(1_000);
    m.handle("dev", Event::PeerToreDown);
    assert!(matches!(
        m.handle("dev", Event::WantToOpen),
        Effect::DeferOpen { .. }
    ));
    clock.advance_ms(1_000);
    m.handle("dev", Event::PeerToreDown);
    assert_eq!(
        m.handle("dev", Event::WantToOpen),
        Effect::DeferOpen {
            retry_after_ms: REOPEN_QUIET_MS + 100
        }
    );
}

#[test]
fn a_session_arriving_during_the_quiet_ends_it() {
    let (mut m, _) = machine(1_000);
    m.handle("dev", Event::PeerToreDown);
    m.handle("dev", Event::OpenFinished);
    assert_eq!(m.phase("dev"), Phase::Absent);
    assert_eq!(m.handle("dev", Event::WantToOpen), Effect::Open);
}

#[test]
fn our_own_teardown_does_not_hold_the_reopen() {
    let (mut m, _) = machine(1_000);
    m.handle(
        "dev",
        Event::WantToTearDown {
            cause: TearDownCause::Blind,
        },
    );
    assert_eq!(m.handle("dev", Event::WantToOpen), Effect::Open);
}

#[test]
fn a_reopen_the_peer_should_make_waits_their_turn_out() {
    let (mut m, _) = machine(1_000);
    m.handle("dev", Event::PeerToreDown);
    assert_eq!(
        m.handle(
            "dev",
            Event::WantToReopen {
                peer_rebuilds: true
            }
        ),
        Effect::DeferOpen {
            retry_after_ms: RESPONDER_OVERRIDE_MS + 100
        }
    );
}

#[test]
fn the_peers_turn_runs_out_and_we_take_the_role() {
    let (mut m, clock) = machine(1_000);
    m.handle("dev", Event::PeerToreDown);
    m.handle(
        "dev",
        Event::WantToReopen {
            peer_rebuilds: true,
        },
    );
    clock.advance_ms(RESPONDER_OVERRIDE_MS);
    assert_eq!(m.handle("dev", Event::WantToOpen), Effect::Open);
}

#[test]
fn a_reopen_we_should_make_waits_only_the_flush() {
    let (mut m, _) = machine(1_000);
    m.handle("dev", Event::PeerToreDown);
    assert_eq!(
        m.handle(
            "dev",
            Event::WantToReopen {
                peer_rebuilds: false
            }
        ),
        Effect::DeferOpen {
            retry_after_ms: REOPEN_QUIET_MS + 100
        }
    );
}

#[test]
fn a_send_does_not_wait_the_peers_turn_out() {
    let (mut m, clock) = machine(1_000);
    m.handle("dev", Event::PeerToreDown);
    m.handle(
        "dev",
        Event::WantToReopen {
            peer_rebuilds: true,
        },
    );
    clock.advance_ms(REOPEN_QUIET_MS);
    assert_eq!(m.handle("dev", Event::WantToOpen), Effect::Open);
}

#[test]
fn our_own_teardown_does_not_start_the_peers_turn() {
    let (mut m, _) = machine(1_000);
    m.handle(
        "dev",
        Event::WantToTearDown {
            cause: TearDownCause::Blind,
        },
    );
    assert_eq!(
        m.handle(
            "dev",
            Event::WantToReopen {
                peer_rebuilds: false
            }
        ),
        Effect::Open
    );
}

#[test]
fn an_opening_in_flight_outranks_the_turn() {
    let (mut m, _) = machine(1_000);
    assert_eq!(m.handle("dev", Event::WantToOpen), Effect::Open);
    assert_eq!(
        m.handle(
            "dev",
            Event::WantToReopen {
                peer_rebuilds: true
            }
        ),
        Effect::WaitForOpen
    );
}

#[test]
fn the_peers_rebuild_ends_the_turn() {
    let (mut m, clock) = machine(1_000);
    m.handle("dev", Event::PeerToreDown);
    m.handle(
        "dev",
        Event::WantToReopen {
            peer_rebuilds: true,
        },
    );
    m.handle("dev", Event::PeerAcked);
    clock.advance_ms(RESPONDER_OVERRIDE_MS);
    assert_eq!(m.phase("dev"), Phase::Absent);
    assert!(!m.owes_teardown("dev"));
}

#[test]
fn the_turn_outlasts_the_windows_inside_it() {
    assert!(RESPONDER_OVERRIDE_MS > PEER_TEARDOWN_QUIET_MS);
    assert!(RESPONDER_OVERRIDE_MS > REOPEN_QUIET_MS);
    assert!(RESPONDER_OVERRIDE_MS > OPENING_TTL_MS);
}

#[test]
fn a_second_teardown_in_the_window_is_owed_not_dropped() {
    let (mut m, _) = machine(1_000);
    assert_eq!(
        m.handle(
            "dev",
            Event::WantToTearDown {
                cause: TearDownCause::Blind
            }
        ),
        Effect::TearDown
    );
    match m.handle(
        "dev",
        Event::WantToTearDown {
            cause: TearDownCause::Blind,
        },
    ) {
        Effect::DeferTearDown { retry_after_ms } => {
            assert!(retry_after_ms > 0 && retry_after_ms <= END_SESSION_COOLDOWN_MS + 100)
        }
        other => panic!("expected a deferral, got {other:?}"),
    }
    assert!(m.owes_teardown("dev"));
}

#[test]
fn many_suppressions_pay_one_teardown() {
    let (mut m, clock) = machine(1_000);
    m.handle(
        "dev",
        Event::WantToTearDown {
            cause: TearDownCause::Blind,
        },
    );
    for _ in 0..5 {
        m.handle(
            "dev",
            Event::WantToTearDown {
                cause: TearDownCause::Blind,
            },
        );
    }
    clock.advance_ms(END_SESSION_COOLDOWN_MS + 1);
    assert_eq!(m.handle("dev", Event::Timeout), Effect::TearDown);
    clock.advance_ms(END_SESSION_COOLDOWN_MS + 1);
    assert_eq!(m.handle("dev", Event::Timeout), Effect::Nothing);
}

#[test]
fn an_owed_teardown_is_void_once_the_session_is_rebuilt() {
    let (mut m, clock) = machine(1_000);
    m.handle(
        "dev",
        Event::WantToTearDown {
            cause: TearDownCause::Blind,
        },
    );
    m.handle(
        "dev",
        Event::WantToTearDown {
            cause: TearDownCause::Blind,
        },
    );
    assert!(m.owes_teardown("dev"));

    m.handle("dev", Event::WantToOpen);
    m.handle("dev", Event::OpenFinished);

    clock.advance_ms(END_SESSION_COOLDOWN_MS + 1);
    assert!(!m.owes_teardown("dev"), "the rebuild settled it");
    assert_ne!(m.handle("dev", Event::Timeout), Effect::TearDown);
}

#[test]
fn a_timeout_with_no_debt_does_nothing() {
    let (mut m, _) = machine(1_000);
    assert_eq!(m.handle("dev", Event::Timeout), Effect::Nothing);
}

#[test]
fn a_heal_inside_a_teardown_window_is_deferred() {
    let (mut m, _) = machine(1_000);
    m.handle(
        "dev",
        Event::WantToTearDown {
            cause: TearDownCause::Blind,
        },
    );
    match m.handle("dev", Event::WantToHeal) {
        Effect::DeferHeal { retry_after_ms } => assert!(retry_after_ms > 0),
        other => panic!("expected a deferral, got {other:?}"),
    }
}

#[test]
fn a_deferred_heal_leaves_no_debt() {
    let (mut m, clock) = machine(1_000);
    m.handle(
        "dev",
        Event::WantToTearDown {
            cause: TearDownCause::Blind,
        },
    );
    m.handle("dev", Event::WantToHeal);
    assert!(!m.owes_teardown("dev"));
    clock.advance_ms(END_SESSION_COOLDOWN_MS + 1);
    assert_eq!(m.handle("dev", Event::Timeout), Effect::Nothing);
}

#[test]
fn devices_do_not_share_a_phase() {
    let (mut m, _) = machine(1_000);
    assert_eq!(
        m.handle(
            "dev-a",
            Event::WantToTearDown {
                cause: TearDownCause::Blind
            }
        ),
        Effect::TearDown
    );
    assert_eq!(
        m.handle(
            "dev-b",
            Event::WantToTearDown {
                cause: TearDownCause::Blind
            }
        ),
        Effect::TearDown
    );
    assert_eq!(m.handle("dev-a", Event::WantToOpen), Effect::Open);
    assert_eq!(m.handle("dev-b", Event::WantToOpen), Effect::Open);
}

#[test]
fn restored_openings_are_bounded_from_the_restore() {
    let (mut m, clock) = machine(1_000);
    m.restore_opening(vec!["dev".to_string()]);
    assert_eq!(m.handle("dev", Event::WantToOpen), Effect::WaitForOpen);
    clock.advance_ms(OPENING_TTL_MS + 1);
    assert_eq!(m.handle("dev", Event::WantToOpen), Effect::Open);
}

#[test]
fn only_live_openings_are_exported() {
    let (mut m, clock) = machine(1_000);
    m.handle("live", Event::WantToOpen);
    m.handle("stale", Event::WantToOpen);
    clock.advance_ms(OPENING_TTL_MS + 1);
    m.handle("live", Event::WantToOpen);
    assert_eq!(m.opening_device_ids(), vec!["live".to_string()]);
}

#[test]
fn evidence_buys_a_faster_retry_than_the_window() {
    let (mut m, clock) = machine(1_000);
    assert_eq!(
        m.handle(
            "dev",
            Event::WantToTearDown {
                cause: TearDownCause::Unacknowledged
            }
        ),
        Effect::TearDown
    );
    clock.advance_ms(END_SESSION_EVIDENCE_RETRY_MS + 1);
    assert_eq!(
        m.handle(
            "dev",
            Event::WantToTearDown {
                cause: TearDownCause::Unacknowledged
            }
        ),
        Effect::TearDown
    );
}

#[test]
fn the_fast_retry_is_not_available_without_evidence() {
    let (mut m, clock) = machine(1_000);
    m.handle(
        "dev",
        Event::WantToTearDown {
            cause: TearDownCause::Unacknowledged,
        },
    );
    clock.advance_ms(END_SESSION_EVIDENCE_RETRY_MS + 1);
    match m.handle(
        "dev",
        Event::WantToTearDown {
            cause: TearDownCause::Blind,
        },
    ) {
        Effect::DeferTearDown { .. } => {}
        other => panic!("expected a deferral, got {other:?}"),
    }
}

#[test]
fn the_budget_runs_out_and_the_window_returns() {
    let (mut m, clock) = machine(1_000);
    m.handle(
        "dev",
        Event::WantToTearDown {
            cause: TearDownCause::Unacknowledged,
        },
    );
    for _ in 0..(END_SESSION_MAX_UNACKED_RETRIES - 1) {
        clock.advance_ms(END_SESSION_EVIDENCE_RETRY_MS + 1);
        assert_eq!(
            m.handle(
                "dev",
                Event::WantToTearDown {
                    cause: TearDownCause::Unacknowledged
                }
            ),
            Effect::TearDown
        );
    }
    clock.advance_ms(END_SESSION_EVIDENCE_RETRY_MS + 1);
    match m.handle(
        "dev",
        Event::WantToTearDown {
            cause: TearDownCause::Unacknowledged,
        },
    ) {
        Effect::DeferTearDown { retry_after_ms } => {
            assert!(retry_after_ms > END_SESSION_EVIDENCE_RETRY_MS)
        }
        other => panic!("expected the ordinary window, got {other:?}"),
    }
}

#[test]
fn a_spent_budget_survives_the_window_that_spent_it() {
    let (mut m, clock) = machine(1_000);
    m.handle(
        "dev",
        Event::WantToTearDown {
            cause: TearDownCause::Unacknowledged,
        },
    );
    for _ in 0..(END_SESSION_MAX_UNACKED_RETRIES - 1) {
        clock.advance_ms(END_SESSION_EVIDENCE_RETRY_MS + 1);
        m.handle(
            "dev",
            Event::WantToTearDown {
                cause: TearDownCause::Unacknowledged,
            },
        );
    }
    clock.advance_ms(END_SESSION_COOLDOWN_MS + 1);
    assert_eq!(
        m.handle(
            "dev",
            Event::WantToTearDown {
                cause: TearDownCause::Unacknowledged
            }
        ),
        Effect::TearDown
    );
    clock.advance_ms(END_SESSION_EVIDENCE_RETRY_MS + 1);
    match m.handle(
        "dev",
        Event::WantToTearDown {
            cause: TearDownCause::Unacknowledged,
        },
    ) {
        Effect::DeferTearDown { .. } => {}
        other => panic!("expected the budget to still be spent, got {other:?}"),
    }
}

#[test]
fn a_long_quiet_returns_the_budget() {
    let (mut m, clock) = machine(1_000);
    m.handle(
        "dev",
        Event::WantToTearDown {
            cause: TearDownCause::Unacknowledged,
        },
    );
    for _ in 0..(END_SESSION_MAX_UNACKED_RETRIES - 1) {
        clock.advance_ms(END_SESSION_EVIDENCE_RETRY_MS + 1);
        m.handle(
            "dev",
            Event::WantToTearDown {
                cause: TearDownCause::Unacknowledged,
            },
        );
    }
    clock.advance_ms(UNACKED_BUDGET_TTL_MS + 1);
    assert_eq!(
        m.handle(
            "dev",
            Event::WantToTearDown {
                cause: TearDownCause::Unacknowledged
            }
        ),
        Effect::TearDown
    );
    clock.advance_ms(END_SESSION_EVIDENCE_RETRY_MS + 1);
    assert_eq!(
        m.handle(
            "dev",
            Event::WantToTearDown {
                cause: TearDownCause::Unacknowledged
            }
        ),
        Effect::TearDown
    );
}

#[test]
fn a_rebuilt_session_returns_the_budget() {
    let (mut m, clock) = machine(1_000);
    m.handle(
        "dev",
        Event::WantToTearDown {
            cause: TearDownCause::Unacknowledged,
        },
    );
    for _ in 0..(END_SESSION_MAX_UNACKED_RETRIES - 1) {
        clock.advance_ms(END_SESSION_EVIDENCE_RETRY_MS + 1);
        m.handle(
            "dev",
            Event::WantToTearDown {
                cause: TearDownCause::Unacknowledged,
            },
        );
    }
    m.handle("dev", Event::OpenFinished);
    assert_eq!(
        m.handle(
            "dev",
            Event::WantToTearDown {
                cause: TearDownCause::Unacknowledged
            }
        ),
        Effect::TearDown
    );
    clock.advance_ms(END_SESSION_EVIDENCE_RETRY_MS + 1);
    assert_eq!(
        m.handle(
            "dev",
            Event::WantToTearDown {
                cause: TearDownCause::Unacknowledged
            }
        ),
        Effect::TearDown
    );
}

#[test]
fn a_heal_waits_its_own_window_not_the_teardowns() {
    let (mut m, clock) = machine(1_000);
    m.handle(
        "dev",
        Event::WantToTearDown {
            cause: TearDownCause::Blind,
        },
    );
    clock.advance_ms(HEAL_COOLDOWN_MS + 1);
    assert_eq!(m.handle("dev", Event::WantToHeal), Effect::Heal);
    match m.handle(
        "dev",
        Event::WantToTearDown {
            cause: TearDownCause::Blind,
        },
    ) {
        Effect::DeferTearDown { .. } => {}
        other => panic!("expected the teardown to still be held, got {other:?}"),
    }
}

#[test]
fn healing_does_not_spend_the_teardown_budget() {
    let (mut m, clock) = machine(1_000);
    m.handle(
        "dev",
        Event::WantToTearDown {
            cause: TearDownCause::Unacknowledged,
        },
    );
    for _ in 0..3 {
        clock.advance_ms(HEAL_COOLDOWN_MS + 1);
        assert_eq!(m.handle("dev", Event::WantToHeal), Effect::Heal);
    }
    clock.advance_ms(END_SESSION_EVIDENCE_RETRY_MS + 1);
    assert_eq!(
        m.handle(
            "dev",
            Event::WantToTearDown {
                cause: TearDownCause::Unacknowledged
            }
        ),
        Effect::TearDown
    );
}

#[test]
fn the_peers_teardown_answers_a_blind_ask_of_ours() {
    let (mut m, _clock) = machine(1_000);
    assert_eq!(m.handle("dev", Event::PeerToreDown), Effect::Nothing);
    assert_eq!(
        m.handle(
            "dev",
            Event::WantToTearDown {
                cause: TearDownCause::Blind
            }
        ),
        Effect::TearDownNotNeeded
    );
    assert!(
        !m.owes_teardown("dev"),
        "nothing is owed — the peer already knows"
    );
}

#[test]
fn the_peers_teardown_delays_evidence_but_still_owes_it() {
    let (mut m, clock) = machine(1_000);
    m.handle("dev", Event::PeerToreDown);
    assert!(matches!(
        m.handle(
            "dev",
            Event::WantToTearDown {
                cause: TearDownCause::Unacknowledged
            }
        ),
        Effect::DeferTearDown { .. }
    ));
    assert!(m.owes_teardown("dev"));
    clock.advance_ms(END_SESSION_EVIDENCE_RETRY_MS + 1);
    assert_eq!(
        m.handle(
            "dev",
            Event::WantToTearDown {
                cause: TearDownCause::Unacknowledged
            }
        ),
        Effect::TearDown,
        "the short window applies inside the peer's quiet; only the blind ask is silenced"
    );
}

#[test]
fn the_peers_teardown_does_not_silence_an_explained_one() {
    let (mut m, clock) = machine(1_000);
    m.handle("dev", Event::PeerToreDown);
    assert!(matches!(
        m.handle(
            "dev",
            Event::WantToTearDown {
                cause: TearDownCause::Explained
            }
        ),
        Effect::DeferTearDown { .. }
    ));
    assert!(m.owes_teardown("dev"));
    clock.advance_ms(END_SESSION_COOLDOWN_MS + 1);
    assert_eq!(m.handle("dev", Event::Timeout), Effect::TearDown);
}

#[test]
fn a_blind_teardown_returns_once_the_quiet_passes() {
    let (mut m, clock) = machine(1_000);
    m.handle("dev", Event::PeerToreDown);
    clock.advance_ms(PEER_TEARDOWN_QUIET_MS + 1);
    assert_eq!(
        m.handle(
            "dev",
            Event::WantToTearDown {
                cause: TearDownCause::Blind
            }
        ),
        Effect::TearDown
    );
}

#[test]
fn suppressed_asks_do_not_extend_the_peers_quiet() {
    let (mut m, clock) = machine(1_000);
    m.handle("dev", Event::PeerToreDown);
    for _ in 0..5 {
        clock.advance_ms(PEER_TEARDOWN_QUIET_MS / 6);
        assert_eq!(
            m.handle(
                "dev",
                Event::WantToTearDown {
                    cause: TearDownCause::Blind
                }
            ),
            Effect::TearDownNotNeeded
        );
    }
    clock.advance_ms(PEER_TEARDOWN_QUIET_MS);
    assert_eq!(
        m.handle(
            "dev",
            Event::WantToTearDown {
                cause: TearDownCause::Blind
            }
        ),
        Effect::TearDown
    );
}

#[test]
fn the_peers_teardown_discharges_our_debt() {
    let (mut m, clock) = machine(1_000);
    m.handle(
        "dev",
        Event::WantToTearDown {
            cause: TearDownCause::Blind,
        },
    );
    m.handle(
        "dev",
        Event::WantToTearDown {
            cause: TearDownCause::Blind,
        },
    );
    assert!(
        m.owes_teardown("dev"),
        "pre-condition: the second ask is owed"
    );
    m.handle("dev", Event::PeerToreDown);
    assert!(!m.owes_teardown("dev"));
    clock.advance_ms(END_SESSION_COOLDOWN_MS + 1);
    assert_eq!(m.handle("dev", Event::Timeout), Effect::Nothing);
}

#[test]
fn the_peers_teardown_keeps_the_retry_budget() {
    let (mut m, clock) = machine(1_000);
    for _ in 0..END_SESSION_MAX_UNACKED_RETRIES {
        assert_eq!(
            m.handle(
                "dev",
                Event::WantToTearDown {
                    cause: TearDownCause::Unacknowledged
                }
            ),
            Effect::TearDown
        );
        clock.advance_ms(END_SESSION_EVIDENCE_RETRY_MS + 1);
    }
    m.handle("dev", Event::PeerToreDown);
    assert!(matches!(
        m.handle(
            "dev",
            Event::WantToTearDown {
                cause: TearDownCause::Unacknowledged
            }
        ),
        Effect::DeferTearDown { .. }
    ));
}

#[test]
fn healing_does_not_turn_the_peers_quiet_into_ours() {
    let (mut m, clock) = machine(1_000);
    m.handle("dev", Event::PeerToreDown);
    clock.advance_ms(HEAL_COOLDOWN_MS + 1);
    assert_eq!(m.handle("dev", Event::WantToHeal), Effect::Heal);
    assert_eq!(
        m.handle(
            "dev",
            Event::WantToTearDown {
                cause: TearDownCause::Blind
            }
        ),
        Effect::TearDownNotNeeded
    );
}

#[test]
fn forgetting_a_device_forgets_its_debt() {
    let (mut m, clock) = machine(1_000);
    m.handle(
        "dev",
        Event::WantToTearDown {
            cause: TearDownCause::Blind,
        },
    );
    m.handle(
        "dev",
        Event::WantToTearDown {
            cause: TearDownCause::Blind,
        },
    );
    m.handle("dev", Event::Forget);
    clock.advance_ms(END_SESSION_COOLDOWN_MS + 1);
    assert_eq!(m.handle("dev", Event::Timeout), Effect::Nothing);
}

#[test]
fn an_alarm_inside_the_window_does_not_pay_the_debt() {
    let (mut m, clock) = machine(1_000);
    let blind = Event::WantToTearDown { cause: TearDownCause::Blind };
    assert_eq!(m.handle("dev", blind), Effect::TearDown);
    assert_eq!(m.handle("dev", blind), Effect::DeferTearDown { retry_after_ms: 30_100 });
    clock.advance_ms(5_000);
    assert_eq!(
        m.handle("dev", Event::Timeout),
        Effect::DeferTearDown { retry_after_ms: 25_100 }
    );
    assert!(m.owes_teardown("dev"));
    clock.advance_ms(25_000);
    assert_eq!(m.handle("dev", Event::Timeout), Effect::TearDown);
    assert!(!m.owes_teardown("dev"));
}

#[test]
fn a_debt_on_evidence_is_due_after_the_short_window() {
    let (mut m, clock) = machine(1_000);
    m.handle("dev", Event::WantToTearDown { cause: TearDownCause::Blind });
    let evidence = Event::WantToTearDown { cause: TearDownCause::Unacknowledged };
    assert_eq!(m.handle("dev", evidence), Effect::DeferTearDown { retry_after_ms: 3_100 });
    clock.advance_ms(2_999);
    assert_eq!(m.handle("dev", Event::Timeout), Effect::DeferTearDown { retry_after_ms: 101 });
    clock.advance_ms(1);
    assert_eq!(m.handle("dev", Event::Timeout), Effect::TearDown);
}

#[test]
fn an_alarm_inside_the_window_does_not_end_the_window() {
    let (mut m, clock) = machine(1_000);
    let blind = Event::WantToTearDown { cause: TearDownCause::Blind };
    m.handle("dev", blind);
    clock.advance_ms(5_000);
    assert_eq!(m.handle("dev", Event::Timeout), Effect::Nothing);
    assert!(matches!(m.handle("dev", blind), Effect::DeferTearDown { .. }));
}

#[test]
fn a_heal_moves_the_debt_and_the_alarm_follows() {
    let (mut m, clock) = machine(1_000);
    let blind = Event::WantToTearDown { cause: TearDownCause::Blind };
    m.handle("dev", blind);
    m.handle("dev", blind);
    clock.advance_ms(10_000);
    assert_eq!(m.handle("dev", Event::WantToHeal), Effect::Heal);
    clock.advance_ms(20_100);
    assert_eq!(
        m.handle("dev", Event::Timeout),
        Effect::DeferTearDown { retry_after_ms: 10_000 }
    );
    clock.advance_ms(10_000);
    assert_eq!(m.handle("dev", Event::Timeout), Effect::TearDown);
}
