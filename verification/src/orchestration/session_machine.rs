//! What state a ratchet is in, and what may happen to it next.
//!
//! A session is a ratchet between **two devices**. Its lifecycle — a session dies, a session is
//! born — is one machine, keyed by device, with one timer. `transition` is that machine: from what
//! is stored about one device, the time and an event, to what is stored next and the one thing the
//! caller must do. `SessionMachine` keeps one such record per device.

use std::sync::Arc;

use vstd::prelude::*;

use crate::orchestration::clock::{self, Clock};
use crate::str_map::{self, StrMap};
use crate::strings::same_bytes;
use crate::vecs;

verus! {

// ── Windows ─────────────────────────────────────────────────────────────────

/// Minimum time between successive END_SESSION sends to the same device (ms).
pub const END_SESSION_COOLDOWN_MS: u64 = 30_000;

/// Minimum time between successive *heals* of the same device (ms).
///
/// A heal is a local re-init off a leftover carrier the peer will re-deliver anyway, so it is held
/// for less than a teardown, which costs the peer an envelope.
pub const HEAL_COOLDOWN_MS: u64 = 5_000;

/// How soon a teardown may be repeated when there is **evidence** the last one did not land (ms).
pub const END_SESSION_EVIDENCE_RETRY_MS: u64 = 3_000;

/// How many evidence-driven repeats a device gets before the ordinary window returns.
pub const END_SESSION_MAX_UNACKED_RETRIES: u32 = 3;

/// How long a spent retry budget is remembered (ms): it must outlive the window it was spent in.
pub const UNACKED_BUDGET_TTL_MS: u64 = 60_000;

/// How long `Opening` may last before the machine stops believing it (ms).
pub const OPENING_TTL_MS: u64 = 30_000;

/// How long an **announced** opening waits for the peer's acknowledgement (ms).
pub const OPENING_CONFIRM_WINDOW_MS: u64 = 75_000;

/// How often an unacknowledged SESSION_RESET_INIT is re-sent inside that window (ms).
pub const SRI_RETRY_MS: u64 = 30_000;

/// How long the peer's own teardown keeps ours quiet (ms).
pub const PEER_TEARDOWN_QUIET_MS: u64 = 30_000;

/// How long the peer's own teardown holds our **reopen** (ms): the length of the server flush that
/// carries their rebuild.
pub const REOPEN_QUIET_MS: u64 = 1_500;

/// How long the natural RESPONDER waits for the peer's rebuild before taking the role (ms).
pub const RESPONDER_OVERRIDE_MS: u64 = 60_000;

/// The relations between the windows that the machine relies on: an opening outlasts its own retry
/// cadence, the reopen quiet is a fraction of the teardown quiet that carries it, the peer's turn
/// outlasts the teardown quiet, and a spent budget outlives the window it was spent in.
pub proof fn window_relations()
    ensures
        SRI_RETRY_MS < OPENING_CONFIRM_WINDOW_MS,
        REOPEN_QUIET_MS < PEER_TEARDOWN_QUIET_MS,
        PEER_TEARDOWN_QUIET_MS == END_SESSION_COOLDOWN_MS,
        PEER_TEARDOWN_QUIET_MS < RESPONDER_OVERRIDE_MS,
        UNACKED_BUDGET_TTL_MS == 2 * END_SESSION_COOLDOWN_MS,
        HEAL_COOLDOWN_MS < END_SESSION_COOLDOWN_MS,
        END_SESSION_EVIDENCE_RETRY_MS < END_SESSION_COOLDOWN_MS,
{
}

// ── Phases, events, effects ─────────────────────────────────────────────────

/// What the machine believes about one ratchet.
#[derive(Debug, Clone, Copy, PartialEq, Eq, Structural)]
pub enum Phase {
    /// No session, and nothing in flight for one.
    Absent,
    /// A session is being opened. Nothing else may start a second one.
    ///
    /// `unacked_sri` counts the announcements the peer has not answered. `0` is an init still
    /// running, believed for `OPENING_TTL_MS`. Above `0` a SESSION_RESET_INIT is on the wire and
    /// the bound is `OPENING_CONFIRM_WINDOW_MS`.
    Opening { since_ms: u64, unacked_sri: u32 },
    /// A teardown has gone out and the peer has not yet acted on it. Inside this phase another
    /// teardown is not sent — it is **owed**, which is not the same as dropped.
    ///
    /// `unacked` counts the teardowns sent on evidence that the previous one never arrived.
    /// `peer_asked` records who started this: a teardown is owed only when we are the only side
    /// that knows. `on_evidence` says that the owed teardown was asked for on evidence within the
    /// budget, and so is due after the short window.
    TearingDown { since_ms: u64, owed: bool, unacked: u32, peer_asked: bool, on_evidence: bool },
}

impl DeepView for Phase {
    type V = Phase;

    open spec fn deep_view(&self) -> Phase {
        *self
    }
}

/// Why a teardown is being asked for — which is what decides how soon it may go.
#[derive(Debug, Clone, Copy, PartialEq, Eq, Structural)]
pub enum TearDownCause {
    /// This ratchet will not open, and nothing more is known. The only ask the peer's own teardown
    /// silences.
    Blind,
    /// A message arrived on a ratchet we no longer hold — proof our last teardown never landed.
    /// Buys the short window, while the budget lasts.
    Unacknowledged,
    /// The teardown carries a reason the peer cannot work out for itself. Held to the ordinary
    /// window, never silenced.
    Explained,
}

/// What a client of the machine wants to happen.
#[derive(Debug, Clone, Copy, PartialEq, Eq, Structural)]
pub enum Event {
    /// Something needs a session with this device and there is none. Never yields the peer's turn.
    WantToOpen,
    /// The ratchet just died and should come back; nobody is waiting on it. `peer_rebuilds` is the
    /// tie-break: true when the peer is the natural INITIATOR.
    WantToReopen { peer_rebuilds: bool },
    /// The init finished: a session exists again.
    OpenFinished,
    /// The init was refused: no session came of it.
    OpenFailed,
    /// A SESSION_RESET_INIT has gone out to this device.
    SriAnnounced,
    /// The peer acknowledged our opening.
    PeerAcked,
    /// This ratchet cannot decrypt and the peer must be told to rebuild it.
    WantToTearDown { cause: TearDownCause },
    /// The **peer** tore this ratchet down and we have applied it.
    PeerToreDown,
    /// This ratchet cannot decrypt and we intend to heal rather than tear down.
    WantToHeal,
    /// The timer the machine asked for has fired.
    Timeout,
    /// Everything about this device is being forgotten.
    Forget,
}

/// What the caller must do about it. One effect per event.
#[derive(Debug, Clone, Copy, PartialEq, Eq, Structural)]
pub enum Effect {
    /// Go ahead: open the session.
    Open,
    /// An init is already in flight. The message waits behind it.
    WaitForOpen,
    /// The announcement is out and the peer has not answered yet. Come back in `retry_after_ms`.
    AwaitAck { retry_after_ms: u64 },
    /// Send the SESSION_RESET_INIT again.
    ResendSri { retry_after_ms: u64 },
    /// The confirm window ran out. Stop waiting.
    GiveUpOpening,
    /// Not now: come back in `retry_after_ms` and ask again.
    DeferOpen { retry_after_ms: u64 },
    /// Go ahead: send the teardown.
    TearDown,
    /// Too soon. The teardown is remembered, and paid by an alarm in `retry_after_ms` unless
    /// something settles it first. A heal that is granted meanwhile restarts the window both share:
    /// then that alarm is deferred in turn, and the teardown goes one window after the last such
    /// heal.
    DeferTearDown { retry_after_ms: u64 },
    /// Do not send, and do not come back: the peer tore this ratchet down itself.
    TearDownNotNeeded,
    /// Go ahead: heal.
    Heal,
    /// Too soon, and unlike a teardown a heal is **not** owed.
    DeferHeal { retry_after_ms: u64 },
    /// Nothing to do.
    Nothing,
}

/// What is to be done with a SESSION_RESET_INIT that has arrived.
#[derive(Debug, Clone, Copy, PartialEq, Eq, Structural)]
pub enum ResetInitVerdict {
    /// A handshake not seen yet: apply it.
    Apply,
    /// The handshake already applied, delivered again.
    Redelivery,
    /// Sent before the session now held was established.
    PredatesSession,
}

/// What the machine has stored about a teardown, with the budget rule already applied.
#[derive(Debug, Clone, Copy, PartialEq, Eq, Structural)]
pub struct TearDownRecord {
    pub since_ms: u64,
    pub owed: bool,
    pub unacked: u32,
    pub peer_asked: bool,
    pub on_evidence: bool,
}

// ── The machine of one device ───────────────────────────────────────────────

/// Time passed since `since`; none when the clock went back.
pub open spec fn elapsed(now: u64, since: u64) -> int {
    if now >= since {
        now - since
    } else {
        0
    }
}

/// Milliseconds left in a window that started at `since`, plus a small margin so that a timer armed
/// for it lands *after* the window.
pub open spec fn remaining_ms(now: u64, since: u64, window: int) -> u64 {
    ((if window > elapsed(now, since) {
        window - elapsed(now, since)
    } else {
        0
    }) + 100) as u64
}

/// When to wake next for an opening announced at `since` whose `sent`-th announcement has just gone
/// out: the earlier of the next retry and the end of the window.
pub open spec fn open_alarm_ms(now: u64, since: u64, sent: u32) -> u64 {
    remaining_ms(
        now,
        since,
        if sent * SRI_RETRY_MS < OPENING_CONFIRM_WINDOW_MS {
            sent * SRI_RETRY_MS
        } else {
            OPENING_CONFIRM_WINDOW_MS as int
        },
    )
}

/// The lifetime of an opening: announced ones live as long as the peer has to answer.
pub open spec fn opening_window(unacked_sri: u32) -> u64 {
    if unacked_sri > 0 {
        OPENING_CONFIRM_WINDOW_MS
    } else {
        OPENING_TTL_MS
    }
}

/// The phase as it is **now**: a record whose window has passed is `Absent` to any decision.
pub open spec fn reported(p: Option<Phase>, now: u64) -> Phase {
    match p {
        Some(Phase::Opening { since_ms, unacked_sri }) => if elapsed(now, since_ms)
            < opening_window(unacked_sri) {
            p->Some_0
        } else {
            Phase::Absent
        },
        Some(Phase::TearingDown { since_ms, owed, unacked, peer_asked, on_evidence }) => if elapsed(
            now,
            since_ms,
        ) < (if peer_asked {
            PEER_TEARDOWN_QUIET_MS
        } else {
            END_SESSION_COOLDOWN_MS
        }) {
            p->Some_0
        } else {
            Phase::Absent
        },
        _ => Phase::Absent,
    }
}

/// The stored teardown, whatever its window says; a budget older than its lifetime is forgotten.
pub open spec fn teardown_of(p: Option<Phase>, now: u64) -> Option<TearDownRecord> {
    match p {
        Some(Phase::TearingDown { since_ms, owed, unacked, peer_asked, on_evidence }) => Some(
            TearDownRecord {
                since_ms,
                owed,
                unacked: if elapsed(now, since_ms) >= UNACKED_BUDGET_TTL_MS {
                    0
                } else {
                    unacked
                },
                peer_asked,
                on_evidence,
            },
        ),
        _ => None,
    }
}

/// Whether the phase, as it is now, is an announced opening the peer has not answered.
pub open spec fn awaits_ack(p: Option<Phase>, now: u64) -> bool {
    reported(p, now) matches Phase::Opening { since_ms, unacked_sri } && unacked_sri >= 1
}

/// Whether a teardown is owed to the device.
pub open spec fn owes(p: Option<Phase>) -> bool {
    p matches Some(Phase::TearingDown { since_ms, owed, unacked, peer_asked, on_evidence }) && owed
}

/// One more in a count that stops at its maximum.
pub open spec fn counted(n: u32, more: bool) -> u32 {
    if more && n < u32::MAX {
        (n + 1) as u32
    } else {
        n
    }
}

/// Open this ratchet, or say when to ask again.
///
/// The peer's turn (`peer_rebuilds`) and the flush quiet after their teardown both run from the
/// stored teardown, and the turn is the longer of the two.
pub open spec fn open_transition(p: Option<Phase>, now: u64, peer_rebuilds: bool) -> (
    Option<Phase>,
    Effect,
) {
    let granted = (Some(Phase::Opening { since_ms: now, unacked_sri: 0 }), Effect::Open);
    if reported(p, now) is Opening {
        (p, Effect::WaitForOpen)
    } else {
        match teardown_of(p, now) {
            None => granted,
            Some(r) => {
                let quiet = if peer_rebuilds {
                    RESPONDER_OVERRIDE_MS as int
                } else if r.peer_asked {
                    REOPEN_QUIET_MS as int
                } else {
                    0
                };
                if elapsed(now, r.since_ms) < quiet {
                    (
                        p,
                        Effect::DeferOpen { retry_after_ms: remaining_ms(now, r.since_ms, quiet) },
                    )
                } else {
                    granted
                }
            },
        }
    }
}

/// Tear this ratchet down, owe it, or say that it is not needed.
pub open spec fn teardown_transition(p: Option<Phase>, now: u64, cause: TearDownCause) -> (
    Option<Phase>,
    Effect,
) {
    let evidence = cause == TearDownCause::Unacknowledged;
    match teardown_of(p, now) {
        None => (
            Some(
                Phase::TearingDown {
                    since_ms: now,
                    owed: false,
                    unacked: counted(0, evidence),
                    peer_asked: false,
                    on_evidence: false,
                },
            ),
            Effect::TearDown,
        ),
        Some(r) => {
            let short = evidence && r.unacked < END_SESSION_MAX_UNACKED_RETRIES;
            let window = if short {
                END_SESSION_EVIDENCE_RETRY_MS
            } else {
                END_SESSION_COOLDOWN_MS
            };
            if r.peer_asked && cause == TearDownCause::Blind && elapsed(now, r.since_ms)
                < PEER_TEARDOWN_QUIET_MS {
                (p, Effect::TearDownNotNeeded)
            } else if elapsed(now, r.since_ms) >= window {
                (
                    Some(
                        Phase::TearingDown {
                            since_ms: now,
                            owed: false,
                            unacked: counted(r.unacked, evidence),
                            peer_asked: false,
                            on_evidence: false,
                        },
                    ),
                    Effect::TearDown,
                )
            } else {
                (
                    Some(
                        Phase::TearingDown {
                            since_ms: r.since_ms,
                            owed: true,
                            unacked: r.unacked,
                            peer_asked: r.peer_asked,
                            on_evidence: short || (r.owed && r.on_evidence),
                        },
                    ),
                    Effect::DeferTearDown {
                        retry_after_ms: remaining_ms(now, r.since_ms, window as int),
                    },
                )
            }
        },
    }
}

/// Heal this ratchet, or say when to ask again. A heal neither owes nor spends anything. It shares
/// the window of a teardown, so that a teardown owed from before waits it out anew.
pub open spec fn heal_transition(p: Option<Phase>, now: u64) -> (Option<Phase>, Effect) {
    match teardown_of(p, now) {
        None => (
            Some(
                Phase::TearingDown {
                    since_ms: now,
                    owed: false,
                    unacked: 0,
                    peer_asked: false,
                    on_evidence: false,
                },
            ),
            Effect::Heal,
        ),
        Some(r) => if elapsed(now, r.since_ms) < HEAL_COOLDOWN_MS {
            (
                p,
                Effect::DeferHeal {
                    retry_after_ms: remaining_ms(now, r.since_ms, HEAL_COOLDOWN_MS as int),
                },
            )
        } else {
            (
                Some(
                    Phase::TearingDown {
                        since_ms: now,
                        owed: r.owed,
                        unacked: r.unacked,
                        peer_asked: r.peer_asked,
                        on_evidence: r.owed && r.on_evidence,
                    },
                ),
                Effect::Heal,
            )
        },
    }
}

/// The window an owed teardown waits out: the short one if it was asked for on evidence.
pub open spec fn debt_window(r: TearDownRecord) -> u64 {
    if r.on_evidence {
        END_SESSION_EVIDENCE_RETRY_MS
    } else {
        END_SESSION_COOLDOWN_MS
    }
}

/// The alarm: re-announce or give up an opening, pay an owed teardown once its window has passed,
/// or let a record go that answers no question any more.
///
/// Not every alarm is the one the debt asked for: one that comes before the window has passed is
/// told when to come back.
pub open spec fn timeout_transition(p: Option<Phase>, now: u64) -> (Option<Phase>, Effect) {
    match p {
        Some(Phase::Opening { since_ms, unacked_sri }) => {
            let passed = elapsed(now, since_ms);
            if unacked_sri == 0 {
                (
                    if passed >= OPENING_TTL_MS {
                        None
                    } else {
                        p
                    },
                    Effect::Nothing,
                )
            } else if passed >= OPENING_CONFIRM_WINDOW_MS {
                (None, Effect::GiveUpOpening)
            } else if passed < unacked_sri * SRI_RETRY_MS {
                (p, Effect::Nothing)
            } else {
                (
                    Some(Phase::Opening { since_ms, unacked_sri: (unacked_sri + 1) as u32 }),
                    Effect::ResendSri {
                        retry_after_ms: open_alarm_ms(now, since_ms, (unacked_sri + 1) as u32),
                    },
                )
            }
        },
        _ => match teardown_of(p, now) {
            None => (p, Effect::Nothing),
            Some(r) => if r.owed && elapsed(now, r.since_ms) < debt_window(r) {
                (
                    p,
                    Effect::DeferTearDown {
                        retry_after_ms: remaining_ms(now, r.since_ms, debt_window(r) as int),
                    },
                )
            } else if r.owed {
                (
                    Some(
                        Phase::TearingDown {
                            since_ms: now,
                            owed: false,
                            unacked: r.unacked,
                            peer_asked: false,
                            on_evidence: false,
                        },
                    ),
                    Effect::TearDown,
                )
            } else if elapsed(now, r.since_ms) < UNACKED_BUDGET_TTL_MS {
                (p, Effect::Nothing)
            } else {
                (None, Effect::Nothing)
            },
        },
    }
}

/// The machine of one device: from what is stored, the time and an event, to what is stored next
/// and what the caller must do.
pub open spec fn transition(p: Option<Phase>, now: u64, event: Event) -> (Option<Phase>, Effect) {
    match event {
        Event::WantToOpen => open_transition(p, now, false),
        Event::WantToReopen { peer_rebuilds } => open_transition(p, now, peer_rebuilds),
        Event::SriAnnounced => (
            Some(Phase::Opening { since_ms: now, unacked_sri: 1 }),
            Effect::AwaitAck { retry_after_ms: open_alarm_ms(now, now, 1) },
        ),
        Event::OpenFinished => (None, Effect::Nothing),
        Event::OpenFailed => (
            if p matches Some(Phase::Opening { since_ms, unacked_sri }) {
                None
            } else {
                p
            },
            Effect::Nothing,
        ),
        Event::PeerAcked => (None, Effect::Nothing),
        Event::WantToTearDown { cause } => teardown_transition(p, now, cause),
        Event::PeerToreDown => (
            if awaits_ack(p, now) {
                p
            } else {
                Some(
                    Phase::TearingDown {
                        since_ms: now,
                        owed: false,
                        unacked: match teardown_of(p, now) {
                            Some(r) => r.unacked,
                            None => 0,
                        },
                        peer_asked: true,
                        on_evidence: false,
                    },
                )
            },
            Effect::Nothing,
        ),
        Event::WantToHeal => heal_transition(p, now),
        Event::Timeout => timeout_transition(p, now),
        Event::Forget => (None, Effect::Nothing),
    }
}

fn since_now(now: u64, since: u64) -> (r: u64)
    ensures
        r == elapsed(now, since),
{
    now.saturating_sub(since)
}

fn remaining(now: u64, since_ms: u64, window: u64) -> (r: u64)
    requires
        window <= 100_000,
    ensures
        r == remaining_ms(now, since_ms, window as int),
{
    window.saturating_sub(since_now(now, since_ms)) + 100
}

fn next_open_alarm(now: u64, since_ms: u64, sent: u32) -> (r: u64)
    ensures
        r == open_alarm_ms(now, since_ms, sent),
{
    let next_retry: u64 = sent as u64 * SRI_RETRY_MS;
    if next_retry < OPENING_CONFIRM_WINDOW_MS {
        remaining(now, since_ms, next_retry)
    } else {
        remaining(now, since_ms, OPENING_CONFIRM_WINDOW_MS)
    }
}

fn reported_phase(p: &Option<Phase>, now: u64) -> (r: Phase)
    ensures
        r == reported(*p, now),
{
    match p {
        Some(Phase::Opening { since_ms, unacked_sri }) => {
            let window: u64 = if *unacked_sri > 0 {
                OPENING_CONFIRM_WINDOW_MS
            } else {
                OPENING_TTL_MS
            };
            if since_now(now, *since_ms) < window {
                Phase::Opening { since_ms: *since_ms, unacked_sri: *unacked_sri }
            } else {
                Phase::Absent
            }
        },
        Some(Phase::TearingDown { since_ms, owed, unacked, peer_asked, on_evidence }) => {
            let window: u64 = if *peer_asked {
                PEER_TEARDOWN_QUIET_MS
            } else {
                END_SESSION_COOLDOWN_MS
            };
            if since_now(now, *since_ms) < window {
                Phase::TearingDown {
                    since_ms: *since_ms,
                    owed: *owed,
                    unacked: *unacked,
                    peer_asked: *peer_asked,
                    on_evidence: *on_evidence,
                }
            } else {
                Phase::Absent
            }
        },
        _ => Phase::Absent,
    }
}

fn teardown_record(p: &Option<Phase>, now: u64) -> (r: Option<TearDownRecord>)
    ensures
        r == teardown_of(*p, now),
{
    match p {
        Some(Phase::TearingDown { since_ms, owed, unacked, peer_asked, on_evidence }) => {
            let forgotten = since_now(now, *since_ms) >= UNACKED_BUDGET_TTL_MS;
            Some(
                TearDownRecord {
                    since_ms: *since_ms,
                    owed: *owed,
                    unacked: if forgotten {
                        0
                    } else {
                        *unacked
                    },
                    peer_asked: *peer_asked,
                    on_evidence: *on_evidence,
                },
            )
        },
        _ => None,
    }
}

fn count(n: u32, more: bool) -> (r: u32)
    ensures
        r == counted(n, more),
{
    if more {
        n.saturating_add(1)
    } else {
        n
    }
}

fn open_ask(p: Option<Phase>, now: u64, peer_rebuilds: bool) -> (r: (Option<Phase>, Effect))
    ensures
        r == open_transition(p, now, peer_rebuilds),
{
    if let Phase::Opening { .. } = reported_phase(&p, now) {
        return (p, Effect::WaitForOpen);
    }
    if let Some(record) = teardown_record(&p, now) {
        let quiet: u64 = if peer_rebuilds {
            RESPONDER_OVERRIDE_MS
        } else if record.peer_asked {
            REOPEN_QUIET_MS
        } else {
            0
        };
        if since_now(now, record.since_ms) < quiet {
            return (
                p,
                Effect::DeferOpen { retry_after_ms: remaining(now, record.since_ms, quiet) },
            );
        }
    }
    (Some(Phase::Opening { since_ms: now, unacked_sri: 0 }), Effect::Open)
}

fn teardown_ask(p: Option<Phase>, now: u64, cause: TearDownCause) -> (r: (Option<Phase>, Effect))
    ensures
        r == teardown_transition(p, now, cause),
{
    let evidence = cause == TearDownCause::Unacknowledged;
    let record = match teardown_record(&p, now) {
        Some(record) => record,
        None => {
            return (
                Some(
                    Phase::TearingDown {
                        since_ms: now,
                        owed: false,
                        unacked: count(0, evidence),
                        peer_asked: false,
                        on_evidence: false,
                    },
                ),
                Effect::TearDown,
            );
        },
    };
    let passed: u64 = since_now(now, record.since_ms);
    // The peer tore this down itself and is still inside its quiet: a blind ask says nothing they
    // do not know. The record is left as it was, so the quiet keeps running from *their* teardown.
    if record.peer_asked && cause == TearDownCause::Blind && passed < PEER_TEARDOWN_QUIET_MS {
        return (p, Effect::TearDownNotNeeded);
    }
    // Evidence shortens the window, and only while the budget lasts.
    let short = evidence && record.unacked < END_SESSION_MAX_UNACKED_RETRIES;
    let window: u64 = if short {
        END_SESSION_EVIDENCE_RETRY_MS
    } else {
        END_SESSION_COOLDOWN_MS
    };
    if passed >= window {
        return (
            Some(
                Phase::TearingDown {
                    since_ms: now,
                    owed: false,
                    unacked: count(record.unacked, evidence),
                    peer_asked: false,
                    on_evidence: false,
                },
            ),
            Effect::TearDown,
        );
    }
    (
        Some(
            Phase::TearingDown {
                since_ms: record.since_ms,
                owed: true,
                unacked: record.unacked,
                peer_asked: record.peer_asked,
                on_evidence: short || (record.owed && record.on_evidence),
            },
        ),
        Effect::DeferTearDown { retry_after_ms: remaining(now, record.since_ms, window) },
    )
}

fn heal_ask(p: Option<Phase>, now: u64) -> (r: (Option<Phase>, Effect))
    ensures
        r == heal_transition(p, now),
{
    match teardown_record(&p, now) {
        Some(record) => {
            if since_now(now, record.since_ms) < HEAL_COOLDOWN_MS {
                (
                    p,
                    Effect::DeferHeal {
                        retry_after_ms: remaining(now, record.since_ms, HEAL_COOLDOWN_MS),
                    },
                )
            } else {
                (
                    Some(
                        Phase::TearingDown {
                            since_ms: now,
                            owed: record.owed,
                            unacked: record.unacked,
                            peer_asked: record.peer_asked,
                            on_evidence: record.owed && record.on_evidence,
                        },
                    ),
                    Effect::Heal,
                )
            }
        },
        None => (
            Some(
                Phase::TearingDown {
                    since_ms: now,
                    owed: false,
                    unacked: 0,
                    peer_asked: false,
                    on_evidence: false,
                },
            ),
            Effect::Heal,
        ),
    }
}

fn timeout(p: Option<Phase>, now: u64) -> (r: (Option<Phase>, Effect))
    ensures
        r == timeout_transition(p, now),
{
    if let Some(Phase::Opening { since_ms, unacked_sri }) = p {
        let passed: u64 = since_now(now, since_ms);
        if unacked_sri == 0 {
            if passed >= OPENING_TTL_MS {
                return (None, Effect::Nothing);
            }
            return (p, Effect::Nothing);
        }
        if passed >= OPENING_CONFIRM_WINDOW_MS {
            return (None, Effect::GiveUpOpening);
        }
        // The n-th retry is due `n * SRI_RETRY_MS` after the first announcement.
        if passed < unacked_sri as u64 * SRI_RETRY_MS {
            return (p, Effect::Nothing);
        }
        return (
            Some(Phase::Opening { since_ms, unacked_sri: unacked_sri + 1 }),
            Effect::ResendSri { retry_after_ms: next_open_alarm(now, since_ms, unacked_sri + 1) },
        );
    }
    match teardown_record(&p, now) {
        None => (p, Effect::Nothing),
        Some(record) => {
            let passed: u64 = since_now(now, record.since_ms);
            if record.owed {
                let window: u64 = if record.on_evidence {
                    END_SESSION_EVIDENCE_RETRY_MS
                } else {
                    END_SESSION_COOLDOWN_MS
                };
                if passed < window {
                    // Another alarm of this device, or a heal restarted the window.
                    return (
                        p,
                        Effect::DeferTearDown {
                            retry_after_ms: remaining(now, record.since_ms, window),
                        },
                    );
                }
                // Paid exactly once, as a fresh teardown which re-enters the cooldown.
                (
                    Some(
                        Phase::TearingDown {
                            since_ms: now,
                            owed: false,
                            unacked: record.unacked,
                            peer_asked: false,
                            on_evidence: false,
                        },
                    ),
                    Effect::TearDown,
                )
            } else if passed < UNACKED_BUDGET_TTL_MS {
                // The window and the budget are still asked about.
                (p, Effect::Nothing)
            } else {
                (None, Effect::Nothing)
            }
        },
    }
}

/// One step of the machine of one device.
pub fn step(p: Option<Phase>, now: u64, event: Event) -> (r: (Option<Phase>, Effect))
    ensures
        r == transition(p, now, event),
{
    match event {
        Event::WantToOpen => open_ask(p, now, false),
        Event::WantToReopen { peer_rebuilds } => open_ask(p, now, peer_rebuilds),
        Event::SriAnnounced => (
            Some(Phase::Opening { since_ms: now, unacked_sri: 1 }),
            Effect::AwaitAck { retry_after_ms: next_open_alarm(now, now, 1) },
        ),
        Event::OpenFinished => (None, Effect::Nothing),
        Event::OpenFailed => {
            if let Some(Phase::Opening { .. }) = p {
                (None, Effect::Nothing)
            } else {
                (p, Effect::Nothing)
            }
        },
        Event::PeerAcked => (None, Effect::Nothing),
        Event::WantToTearDown { cause } => teardown_ask(p, now, cause),
        Event::PeerToreDown => {
            // Not while our own announcement is unanswered: such a teardown is about the ratchet
            // the announcement replaces.
            if let Phase::Opening { unacked_sri, .. } = reported_phase(&p, now) {
                if unacked_sri >= 1 {
                    return (p, Effect::Nothing);
                }
            }
            let unacked: u32 = match teardown_record(&p, now) {
                Some(record) => record.unacked,
                None => 0,
            };
            (
                Some(
                    Phase::TearingDown {
                        since_ms: now,
                        owed: false,
                        unacked,
                        peer_asked: true,
                        on_evidence: false,
                    },
                ),
                Effect::Nothing,
            )
        },
        Event::WantToHeal => heal_ask(p, now),
        Event::Timeout => timeout(p, now),
        Event::Forget => (None, Effect::Nothing),
    }
}

// ── One machine per device ──────────────────────────────────────────────────

/// What the machine knows, by device id.
#[verifier::ext_equal]
pub struct MachineView {
    /// The stored phase of each device.
    pub phases: Map<Seq<char>, Phase>,
    /// The session a deferred teardown condemns, for devices that are owed one.
    pub condemned: Map<Seq<char>, Seq<char>>,
    /// The ephemeral key of the last SESSION_RESET_INIT applied.
    pub resets: Map<Seq<char>, Seq<u8>>,
}

/// The machine with the record of one device replaced. What a debt condemned is forgotten with the
/// debt.
pub open spec fn with_phase(m: MachineView, device: Seq<char>, p: Option<Phase>) -> MachineView {
    MachineView {
        phases: str_map::store(m.phases, device, p),
        condemned: if owes(p) {
            m.condemned
        } else {
            m.condemned.remove(device)
        },
        resets: m.resets,
    }
}

/// What an event of one device does to the machine, and the effect it has.
pub open spec fn machine_step(m: MachineView, device: Seq<char>, now: u64, event: Event) -> (
    MachineView,
    Effect,
) {
    let (p, effect) = transition(str_map::lookup(m.phases, device), now, event);
    let next = with_phase(m, device, p);
    (
        if event is Forget {
            MachineView { resets: next.resets.remove(device), ..next }
        } else {
            next
        },
        effect,
    )
}

/// The judgement on an arriving SESSION_RESET_INIT, and what is remembered of it.
pub open spec fn judge_step(
    m: MachineView,
    device: Seq<char>,
    init_ephemeral: Seq<u8>,
    sent_at_s: u64,
    established_at_s: Option<u64>,
) -> (MachineView, ResetInitVerdict) {
    if str_map::lookup(m.resets, device) == Some(init_ephemeral) {
        (m, ResetInitVerdict::Redelivery)
    } else if established_at_s matches Some(e) && sent_at_s < e {
        (m, ResetInitVerdict::PredatesSession)
    } else {
        (
            MachineView { resets: m.resets.insert(device, init_ephemeral), ..m },
            ResetInitVerdict::Apply,
        )
    }
}

/// Names the session an owed teardown condemns; nothing is named where nothing is owed.
pub open spec fn condemn_step(
    m: MachineView,
    device: Seq<char>,
    session: Option<Seq<char>>,
) -> MachineView {
    MachineView {
        condemned: if owes(str_map::lookup(m.phases, device)) {
            str_map::store(m.condemned, device, session)
        } else {
            m.condemned
        },
        ..m
    }
}

/// The phase of a device as it is now.
pub open spec fn phase_at(m: MachineView, device: Seq<char>, now: u64) -> Phase {
    reported(str_map::lookup(m.phases, device), now)
}

/// Whether an announced opening of this device is unanswered.
pub open spec fn gate_up(m: MachineView, device: Seq<char>, now: u64) -> bool {
    awaits_ack(str_map::lookup(m.phases, device), now)
}

/// The machine after a restart: the openings in flight are the given ones, dated to the restore
/// and not announced; teardowns of other devices stay.
pub open spec fn restored(m: MachineView, ids: Seq<Seq<char>>, now: u64) -> MachineView {
    MachineView {
        phases: Map::new(
            |k: Seq<char>|
                ids.contains(k) || (m.phases.contains_key(k) && !(m.phases[k] is Opening)),
            |k: Seq<char>|
                if ids.contains(k) {
                    Phase::Opening { since_ms: now, unacked_sri: 0 }
                } else {
                    m.phases[k]
                },
        ),
        condemned: m.condemned.remove_keys(ids.to_set()),
        resets: m.resets,
    }
}

/// Whether a record still answers a question another way than no record would.
pub open spec fn worth_keeping(p: Phase, now: u64) -> bool {
    match p {
        Phase::TearingDown { since_ms, owed, unacked, peer_asked, on_evidence } => owed || elapsed(
            now,
            since_ms,
        ) < UNACKED_BUDGET_TTL_MS,
        _ => true,
    }
}

/// The machine without the records nothing will ask about again.
pub open spec fn pruned(m: MachineView, now: u64) -> MachineView {
    MachineView {
        phases: Map::new(
            |k: Seq<char>| m.phases.contains_key(k) && worth_keeping(m.phases[k], now),
            |k: Seq<char>| m.phases[k],
        ),
        ..m
    }
}

/// A session is condemned only while its teardown is owed.
pub open spec fn condemned_are_owed(m: MachineView) -> bool {
    forall|d: Seq<char>| #[trigger] m.condemned.contains_key(d) ==> owes(str_map::lookup(
        m.phases,
        d,
    ))
}

/// One phase per device, and the transitions between them.
///
/// Keyed by device id. An account has no phase: two devices of one person are two ratchets, and a
/// teardown of one is not a teardown of the other.
pub struct SessionMachine<C: Clock> {
    phases: StrMap<Phase>,
    condemned: StrMap<String>,
    resets: StrMap<Vec<u8>>,
    clock: Arc<C>,
}

impl<C: Clock> View for SessionMachine<C> {
    type V = MachineView;

    closed spec fn view(&self) -> MachineView {
        MachineView {
            phases: self.phases@,
            condemned: self.condemned@,
            resets: self.resets@,
        }
    }
}

impl<C: Clock> SessionMachine<C> {
    /// The clock of this value.
    pub closed spec fn source(&self) -> C {
        *self.clock
    }

    /// A reading the clock of this value may give.
    pub open spec fn reads(&self, now: u64) -> bool {
        clock::reads(&self.source(), now)
    }

    /// A machine that knows nothing of any device.
    pub fn new(clock: Arc<C>) -> (r: Self)
        ensures
            r@ == (MachineView {
                phases: Map::empty(),
                condemned: Map::empty(),
                resets: Map::empty(),
            }),
            r.source() == *clock,
    {
        SessionMachine {
            phases: StrMap::new(),
            condemned: StrMap::new(),
            resets: StrMap::new(),
            clock,
        }
    }

    fn stored(&self, device_id: &str) -> (r: Option<Phase>)
        ensures
            r == str_map::lookup(self@.phases, device_id@),
    {
        match self.phases.get(device_id) {
            Some(p) => Some(*p),
            None => None,
        }
    }

    fn put(&mut self, device_id: &str, p: Option<Phase>)
        ensures
            final(self)@ == with_phase(old(self)@, device_id@, p),
            final(self).source() == old(self).source(),
    {
        let mut keep = false;
        match p {
            Some(phase) => {
                if let Phase::TearingDown { owed, .. } = phase {
                    keep = owed;
                }
                self.phases.insert(device_id.to_owned(), phase);
            },
            None => {
                let _ = self.phases.remove(device_id);
            },
        }
        if !keep {
            let _ = self.condemned.remove(device_id);
        }
    }

    /// The phase of this ratchet at `now`, with the time-outs already applied.
    pub fn phase_at(&self, device_id: &str, now: u64) -> (r: Phase)
        ensures
            r == phase_at(self@, device_id@, now),
    {
        reported_phase(&self.stored(device_id), now)
    }

    /// The phase of this ratchet **now**.
    pub fn phase(&self, device_id: &str) -> (r: Phase)
        ensures
            exists|now: u64| #[trigger]
                self.reads(now) && r == phase_at(self@, device_id@, now),
    {
        let now: u64 = self.clock.now_ms();
        assert(self.reads(now));
        self.phase_at(device_id, now)
    }

    /// Feed the machine an event at `now`, get the one thing to do about it.
    pub fn handle_at(&mut self, device_id: &str, event: Event, now: u64) -> (r: Effect)
        ensures
            (final(self)@, r) == machine_step(old(self)@, device_id@, now, event),
            final(self).source() == old(self).source(),
    {
        let (p, effect) = step(self.stored(device_id), now, event);
        self.put(device_id, p);
        if let Event::Forget = event {
            let _ = self.resets.remove(device_id);
        }
        effect
    }

    /// Feed the machine an event, get the one thing to do about it.
    pub fn handle(&mut self, device_id: &str, event: Event) -> (r: Effect)
        ensures
            exists|now: u64| #[trigger]
                old(self).reads(now) && (final(self)@, r) == machine_step(
                    old(self)@,
                    device_id@,
                    now,
                    event,
                ),
            final(self).source() == old(self).source(),
    {
        let now: u64 = self.clock.now_ms();
        assert(self.reads(now));
        self.handle_at(device_id, event, now)
    }

    /// Whether this device's ratchet was announced and the peer has not answered by `now`.
    pub fn awaits_acknowledgement_at(&self, device_id: &str, now: u64) -> (r: bool)
        ensures
            r == gate_up(self@, device_id@, now),
    {
        match self.phase_at(device_id, now) {
            Phase::Opening { unacked_sri, .. } => unacked_sri >= 1,
            _ => false,
        }
    }

    /// Whether this device's ratchet was announced and the peer has not answered yet.
    pub fn awaits_acknowledgement(&self, device_id: &str) -> (r: bool)
        ensures
            exists|now: u64| #[trigger]
                self.reads(now) && r == gate_up(self@, device_id@, now),
    {
        let now: u64 = self.clock.now_ms();
        assert(self.reads(now));
        self.awaits_acknowledgement_at(device_id, now)
    }

    /// Whether a teardown is owed to this device — the debt the cooldown deferred.
    pub fn owes_teardown(&self, device_id: &str) -> (r: bool)
        ensures
            r == owes(str_map::lookup(self@.phases, device_id@)),
    {
        match self.stored(device_id) {
            Some(Phase::TearingDown { owed, .. }) => owed,
            _ => false,
        }
    }

    /// The session the owed teardown of this device condemns.
    pub fn condemned(&self, device_id: &str) -> (r: Option<String>)
        ensures
            r.deep_view() == str_map::lookup(self@.condemned, device_id@),
    {
        match self.condemned.get(device_id) {
            Some(s) => Some(s.clone()),
            None => None,
        }
    }

    /// Names the session an owed teardown condemns, so that the alarm that pays it can tell it from
    /// one established in the meantime.
    pub fn condemn(&mut self, device_id: &str, session: Option<String>)
        ensures
            final(self)@ == condemn_step(old(self)@, device_id@, session.deep_view()),
            final(self).source() == old(self).source(),
    {
        if self.owes_teardown(device_id) {
            match session {
                Some(s) => {
                    self.condemned.insert(device_id.to_owned(), s);
                },
                None => {
                    let _ = self.condemned.remove(device_id);
                },
            }
        }
    }

    /// Judges a SESSION_RESET_INIT that arrived from this device.
    ///
    /// The same ephemeral key as the one last applied is a redelivery; one sent before the session
    /// now held was established belongs to a handshake that has been replaced.
    pub fn judge_reset_init(
        &mut self,
        device_id: &str,
        init_ephemeral: &[u8],
        sent_at_s: u64,
        established_at_s: Option<u64>,
    ) -> (r: ResetInitVerdict)
        ensures
            (final(self)@, r) == judge_step(
                old(self)@,
                device_id@,
                init_ephemeral@,
                sent_at_s,
                established_at_s,
            ),
            final(self).source() == old(self).source(),
    {
        let repeated = match self.resets.get(device_id) {
            Some(last) => {
                assert(last.deep_view() =~= last@);
                same_bytes(last.as_slice(), init_ephemeral)
            },
            None => false,
        };
        if repeated {
            return ResetInitVerdict::Redelivery;
        }
        if let Some(e) = established_at_s {
            if sent_at_s < e {
                return ResetInitVerdict::PredatesSession;
            }
        }
        let eph = vecs::bytes(init_ephemeral);
        assert(eph.deep_view() =~= init_ephemeral@);
        self.resets.insert(device_id.to_owned(), eph);
        ResetInitVerdict::Apply
    }

    /// Devices the machine holds a live `Opening` for at `now`, each once.
    pub fn opening_device_ids_at(&self, now: u64) -> (r: Vec<String>)
        ensures
            r.deep_view().no_duplicates(),
            forall|k: Seq<char>| #[trigger]
                r.deep_view().contains(k) <==> phase_at(self@, k, now) is Opening,
    {
        let keys = self.phases.keys();
        let mut out: Vec<String> = vecs::none();
        let mut i: usize = 0;
        let ghost all = keys.deep_view();
        while i < keys.len()
            invariant
                i <= keys@.len(),
                all == keys.deep_view(),
                str_map::names_keys(all, self@.phases),
                out.deep_view().no_duplicates(),
                forall|k: Seq<char>| #[trigger]
                    out.deep_view().contains(k) <==> all.take(i as int).contains(k) && phase_at(
                        self@,
                        k,
                        now,
                    ) is Opening,
            decreases keys@.len() - i,
        {
            let ghost before = out.deep_view();
            assert(all[i as int] == keys@[i as int]@);
            assert(all.take(i + 1) =~= all.take(i as int).push(all[i as int]));
            assert(!all.take(i as int).contains(all[i as int])) by {
                if all.take(i as int).contains(all[i as int]) {
                    let j = choose|j: int| 0 <= j < i && all.take(i as int)[j] == all[i as int];
                    assert(all[j] == all[i as int]);
                }
            }
            assert forall|k: Seq<char>| #[trigger] all.take(i + 1).contains(k) <==> (all.take(
                i as int,
            ).contains(k) || k == all[i as int]) by {
                vecs::push_contains(
                    all.take(i as int),
                    all[i as int],
                    k,
                );
            }
            if let Phase::Opening { .. } = self.phase_at(keys[i].as_str(), now) {
                vecs::push(&mut out, keys[i].clone());
                proof {
                    assert forall|k: Seq<char>| #[trigger] out.deep_view().contains(k) <==> (
                    before.contains(k) || k == all[i as int]) by {
                        vecs::push_contains(
                            before,
                            all[i as int],
                            k,
                        );
                    }
                    assert(!before.contains(all[i as int]));
                    vecs::push_no_duplicates(before, all[i as int]);
                }
            }
            i = i + 1;
        }
        proof {
            assert(all.take(i as int) =~= all);
            assert forall|k: Seq<char>| #[trigger] out.deep_view().contains(k) <==> phase_at(
                self@,
                k,
                now,
            ) is Opening by {
                if phase_at(self@, k, now) is Opening {
                    assert(self@.phases.contains_key(k));
                    assert(all.contains(k));
                }
            }
        }
        out
    }

    /// Devices the machine currently holds a live `Opening` for — what the persisted coordination
    /// state carries across a restart.
    pub fn opening_device_ids(&self) -> (r: Vec<String>)
        ensures
            r.deep_view().no_duplicates(),
            exists|now: u64| #[trigger]
                self.reads(now) && forall|k: Seq<char>| #[trigger]
                    r.deep_view().contains(k) <==> phase_at(self@, k, now) is Opening,
    {
        let now: u64 = self.clock.now_ms();
        assert(self.reads(now));
        self.opening_device_ids_at(now)
    }

    /// Restore `Opening` for the devices a previous run left mid-init, as of `now`, as inits still
    /// running.
    pub fn restore_opening_at(&mut self, device_ids: Vec<String>, now: u64)
        ensures
            final(self)@ == restored(old(self)@, device_ids.deep_view(), now),
            final(self).source() == old(self).source(),
    {
        let ghost before = self@;
        let keys = self.phases.keys();
        let ghost all = keys.deep_view();
        let mut i: usize = 0;
        while i < keys.len()
            invariant
                i <= keys@.len(),
                all == keys.deep_view(),
                str_map::names_keys(all, before.phases),
                self@.condemned == before.condemned,
                self@.resets == before.resets,
                self.source() == old(self).source(),
                forall|k: Seq<char>| #[trigger]
                    self@.phases.contains_key(k) <==> before.phases.contains_key(k) && !(
                    all.take(i as int).contains(k) && before.phases[k] is Opening),
                forall|k: Seq<char>| #[trigger]
                    self@.phases.contains_key(k) ==> self@.phases[k] == before.phases[k],
            decreases keys@.len() - i,
        {
            assert(all[i as int] == keys@[i as int]@);
            assert(all.take(i + 1) =~= all.take(i as int).push(all[i as int]));
            assert forall|k: Seq<char>| #[trigger] all.take(i + 1).contains(k) <==> (all.take(
                i as int,
            ).contains(k) || k == all[i as int]) by {
                vecs::push_contains(all.take(i as int), all[i as int], k);
            }
            if let Some(Phase::Opening { .. }) = self.stored(keys[i].as_str()) {
                let _ = self.phases.remove(keys[i].as_str());
            }
            i = i + 1;
        }
        assert(all.take(i as int) =~= all);
        let ghost swept = self@;
        let ghost ids = device_ids.deep_view();
        let mut j: usize = 0;
        while j < device_ids.len()
            invariant
                j <= device_ids@.len(),
                ids == device_ids.deep_view(),
                self@.resets == before.resets,
                self.source() == old(self).source(),
                forall|k: Seq<char>| #[trigger]
                    self@.phases.contains_key(k) <==> ids.take(j as int).contains(k)
                        || swept.phases.contains_key(k),
                forall|k: Seq<char>| #[trigger]
                    self@.phases.contains_key(k) ==> self@.phases[k] == (if ids.take(
                        j as int,
                    ).contains(k) {
                        Phase::Opening { since_ms: now, unacked_sri: 0 }
                    } else {
                        swept.phases[k]
                    }),
                self@.condemned == before.condemned.remove_keys(ids.take(j as int).to_set()),
            decreases device_ids@.len() - j,
        {
            let ghost was = self@;
            assert(ids[j as int] == device_ids@[j as int]@);
            assert(ids.take(j + 1) =~= ids.take(j as int).push(ids[j as int]));
            assert forall|k: Seq<char>| #[trigger] ids.take(j + 1).contains(k) <==> (ids.take(
                j as int,
            ).contains(k) || k == ids[j as int]) by {
                vecs::push_contains(ids.take(j as int), ids[j as int], k);
            }
            self.put(
                device_ids[j].as_str(),
                Some(Phase::Opening { since_ms: now, unacked_sri: 0 }),
            );
            assert(self@.condemned =~= before.condemned.remove_keys(ids.take(j + 1).to_set()));
            j = j + 1;
        }
        assert(ids.take(j as int) =~= ids);
        assert(self@.phases =~= restored(before, ids, now).phases);
        assert(self@ =~= restored(before, ids, now));
    }

    /// Restore `Opening` for the devices a previous run left mid-init.
    pub fn restore_opening(&mut self, device_ids: Vec<String>)
        ensures
            exists|now: u64| #[trigger]
                old(self).reads(now) && final(self)@ == restored(old(self)@, device_ids.deep_view(), now),
            final(self).source() == old(self).source(),
    {
        let now: u64 = self.clock.now_ms();
        assert(self.reads(now));
        self.restore_opening_at(device_ids, now);
    }

    /// Drop the teardown records nothing will ask about again after `now`.
    pub fn prune_expired_at(&mut self, now: u64)
        ensures
            final(self)@ == pruned(old(self)@, now),
            final(self).source() == old(self).source(),
    {
        let ghost before = self@;
        let keys = self.phases.keys();
        let ghost all = keys.deep_view();
        let mut i: usize = 0;
        while i < keys.len()
            invariant
                i <= keys@.len(),
                all == keys.deep_view(),
                str_map::names_keys(all, before.phases),
                self@.condemned == before.condemned,
                self@.resets == before.resets,
                self.source() == old(self).source(),
                forall|k: Seq<char>| #[trigger]
                    self@.phases.contains_key(k) <==> before.phases.contains_key(k) && (
                    all.take(i as int).contains(k) ==> worth_keeping(before.phases[k], now)),
                forall|k: Seq<char>| #[trigger]
                    self@.phases.contains_key(k) ==> self@.phases[k] == before.phases[k],
            decreases keys@.len() - i,
        {
            assert(all[i as int] == keys@[i as int]@);
            assert(all.take(i + 1) =~= all.take(i as int).push(all[i as int]));
            assert forall|k: Seq<char>| #[trigger] all.take(i + 1).contains(k) <==> (all.take(
                i as int,
            ).contains(k) || k == all[i as int]) by {
                vecs::push_contains(all.take(i as int), all[i as int], k);
            }
            assert(all.contains(all[i as int]));
            if let Some(Phase::TearingDown { since_ms, owed, .. }) = self.stored(
                keys[i].as_str(),
            ) {
                if !owed && since_now(now, since_ms) >= UNACKED_BUDGET_TTL_MS {
                    let _ = self.phases.remove(keys[i].as_str());
                }
            }
            i = i + 1;
        }
        assert(all.take(i as int) =~= all);
        assert(self@.phases =~= pruned(before, now).phases);
        assert(self@ =~= pruned(before, now));
    }

    /// Drop teardown records nothing will ask about again.
    pub fn prune_expired(&mut self)
        ensures
            exists|now: u64| #[trigger]
                old(self).reads(now) && final(self)@ == pruned(old(self)@, now),
            final(self).source() == old(self).source(),
    {
        let now: u64 = self.clock.now_ms();
        assert(self.reads(now));
        self.prune_expired_at(now);
    }
}

// ── Laws ────────────────────────────────────────────────────────────────────

/// Two devices of one person are two ratchets: an event of one leaves everything known of another
/// as it was.
pub proof fn devices_are_independent(
    m: MachineView,
    device: Seq<char>,
    other: Seq<char>,
    now: u64,
    event: Event,
)
    requires
        device != other,
    ensures
        ({
            let next = machine_step(m, device, now, event).0;
            &&& str_map::lookup(next.phases, other) == str_map::lookup(m.phases, other)
            &&& str_map::lookup(next.condemned, other) == str_map::lookup(m.condemned, other)
            &&& str_map::lookup(next.resets, other) == str_map::lookup(m.resets, other)
        }),
{
}

/// Nothing starts a second init while one is in flight: every later ask, of either kind, waits and
/// changes nothing, for as long as the opening is believed.
pub proof fn a_second_open_waits(
    p: Option<Phase>,
    now: u64,
    first: Event,
    later: u64,
    second: Event,
)
    requires
        first is WantToOpen || first is WantToReopen,
        second is WantToOpen || second is WantToReopen,
        transition(p, now, first).1 is Open,
        elapsed(later, now) < OPENING_TTL_MS,
    ensures
        transition(transition(p, now, first).0, later, second) == (
            transition(p, now, first).0,
            Effect::WaitForOpen,
        ),
{
}

/// A deferred teardown is owed, not dropped: the alarm it asks for pays it, once, as a teardown of
/// ours that enters a fresh window, and a second alarm finds nothing owed.
pub proof fn a_deferred_teardown_is_paid_once(
    p: Option<Phase>,
    now: u64,
    cause: TearDownCause,
    alarm: u64,
    again: u64,
)
    requires
        teardown_of(p, now) matches Some(r) ==> r.since_ms <= now,
        transition(p, now, Event::WantToTearDown { cause }).1 matches Effect::DeferTearDown {
            retry_after_ms,
        } && alarm >= now + retry_after_ms,
    ensures
        ({
            let deferred = transition(p, now, Event::WantToTearDown { cause }).0;
            let (paid, effect) = transition(deferred, alarm, Event::Timeout);
            &&& owes(deferred)
            &&& effect is TearDown
            &&& !owes(paid)
            &&& transition(paid, again, Event::Timeout).1 is Nothing
        }),
{
}

/// An alarm that comes before the window of the debt has passed pays nothing: the debt stays as it
/// is, and the alarm is told to come back after the window.
pub proof fn an_early_alarm_pays_nothing(p: Option<Phase>, now: u64)
    requires
        owes(p),
        teardown_of(p, now) matches Some(r) && elapsed(now, r.since_ms) < debt_window(r),
    ensures
        transition(p, now, Event::Timeout).0 == p,
        transition(p, now, Event::Timeout).1 matches Effect::DeferTearDown { retry_after_ms }
            && retry_after_ms == debt_window(teardown_of(p, now)->Some_0) - elapsed(
            now,
            teardown_of(p, now)->Some_0.since_ms,
        ) + 100,
{
}

/// When the teardown that is owed is due.
pub open spec fn due_at(p: Option<Phase>) -> int {
    match teardown_of(p, 0) {
        Some(r) => r.since_ms + debt_window(r),
        None => 0,
    }
}

/// A heal that is granted puts a debt off by the time that passed since its window began, which is
/// at least `HEAL_COOLDOWN_MS`. The debt stays as it is otherwise, and is due one window after the
/// heal: no alarm before that pays it, and every alarm from then on does.
pub proof fn a_heal_puts_a_debt_off(p: Option<Phase>, now: u64, alarm: u64)
    requires
        owes(p),
        transition(p, now, Event::WantToHeal).1 is Heal,
    ensures
        ({
            let next = transition(p, now, Event::WantToHeal).0;
            let window = debt_window(teardown_of(p, now)->Some_0);
            let since = teardown_of(p, now)->Some_0.since_ms;
            &&& owes(next)
            &&& due_at(next) == now + window
            &&& due_at(next) - due_at(p) == now - since
            &&& now - since >= HEAL_COOLDOWN_MS
            &&& window <= END_SESSION_COOLDOWN_MS
            &&& alarm < due_at(next) ==> transition(next, alarm, Event::Timeout).1 is DeferTearDown
            &&& alarm >= due_at(next) ==> transition(next, alarm, Event::Timeout).1 is TearDown
        }),
{
}

/// Whether the debt stands throughout the first `n` of a run of events.
pub open spec fn owes_throughout(
    p: Option<Phase>,
    times: Seq<u64>,
    events: Seq<Event>,
    n: int,
) -> bool {
    forall|a: int| 0 <= a <= n ==> owes(#[trigger] after_run(p, times, events, a))
}

/// Whether the heals granted among the first `n` of a run of events are granted by `last`.
pub open spec fn heals_until(
    p: Option<Phase>,
    times: Seq<u64>,
    events: Seq<Event>,
    n: int,
    last: u64,
) -> bool {
    forall|a: int|
        0 <= a < n && (#[trigger] run_effect(p, times, events, a)) is Heal ==> times[a] <= last
}

/// Only heals put a debt off, and only so far: as long as it stands, whatever else is asked and
/// whichever alarms go off, it is due when it first was, or earlier, or one ordinary window after
/// the last heal that was granted.
pub proof fn only_heals_put_a_debt_off(
    p: Option<Phase>,
    times: Seq<u64>,
    events: Seq<Event>,
    n: int,
    last: u64,
)
    requires
        0 <= n <= events.len(),
        times.len() == events.len(),
        owes_throughout(p, times, events, n),
        heals_until(p, times, events, n, last),
    ensures
        due_at(after_run(p, times, events, n)) <= due_at(p) || due_at(
            after_run(p, times, events, n),
        ) <= last + END_SESSION_COOLDOWN_MS,
        (forall|a: int| 0 <= a < n ==> !((#[trigger] run_effect(p, times, events, a)) is Heal))
            ==> due_at(after_run(p, times, events, n)) <= due_at(p),
    decreases n,
{
    if n > 0 {
        only_heals_put_a_debt_off(p, times, events, n - 1, last);
        let before = after_run(p, times, events, n - 1);
        let after = after_run(p, times, events, n);
        assert(owes(before) && owes(after));
        let e = run_effect(p, times, events, n - 1);
        assert(e is Heal ==> times[n - 1] <= last);
        assert(e is Heal ==> due_at(after) <= times[n - 1] + END_SESSION_COOLDOWN_MS);
        assert(!(e is Heal) ==> due_at(after) <= due_at(before));
    }
}

/// A teardown that was deferred is paid by the alarm it asked for, whatever happened meanwhile that
/// left it owed, if no heal was granted; and otherwise by every alarm from one ordinary window
/// after the last of those heals on.
pub proof fn a_deferred_teardown_is_paid_in_time(
    p: Option<Phase>,
    now: u64,
    cause: TearDownCause,
    times: Seq<u64>,
    events: Seq<Event>,
    last: u64,
    alarm: u64,
)
    requires
        teardown_of(p, now) matches Some(r) ==> r.since_ms <= now,
        transition(p, now, Event::WantToTearDown { cause }).1 matches Effect::DeferTearDown {
            retry_after_ms,
        } && alarm >= now + retry_after_ms,
        times.len() == events.len(),
        ({
            let deferred = transition(p, now, Event::WantToTearDown { cause }).0;
            let n = events.len() as int;
            &&& owes_throughout(deferred, times, events, n)
            &&& heals_until(deferred, times, events, n, last)
            &&& alarm >= last + END_SESSION_COOLDOWN_MS || forall|a: int|
                0 <= a < n ==> !((#[trigger] run_effect(deferred, times, events, a)) is Heal)
        }),
    ensures
        ({
            let deferred = transition(p, now, Event::WantToTearDown { cause }).0;
            transition(
                after_run(deferred, times, events, events.len() as int),
                alarm,
                Event::Timeout,
            ).1 is TearDown
        }),
{
    let deferred = transition(p, now, Event::WantToTearDown { cause }).0;
    let n = events.len() as int;
    only_heals_put_a_debt_off(deferred, times, events, n, last);
    assert(owes(after_run(deferred, times, events, n)));
    assert(due_at(deferred) <= alarm);
}

/// A debt begins only with a teardown that is deferred.
pub proof fn only_a_deferral_begins_a_debt(p: Option<Phase>, now: u64, event: Event)
    requires
        !owes(p),
        owes(transition(p, now, event).0),
    ensures
        event is WantToTearDown,
        transition(p, now, event).1 is DeferTearDown,
{
}

/// A debt is never lost but by being paid, settled or discharged: an owed teardown stays owed under
/// every event but the alarm that pays it, a grant that sends it, a session or an acknowledgement
/// that settles it, a new opening or announcement, the peer's own teardown, and forgetting.
pub proof fn a_debt_stays_until_it_is_answered(p: Option<Phase>, now: u64, event: Event)
    requires
        owes(p),
        event is WantToHeal || event is OpenFailed || ((event is WantToTearDown
            || event is Timeout) && !(transition(p, now, event).1 is TearDown)) || ((
        event is WantToOpen || event is WantToReopen) && !(transition(p, now, event).1 is Open)),
    ensures
        owes(transition(p, now, event).0),
{
}

/// A session that exists again, a peer that answers and a device that is forgotten settle
/// everything: no phase, no debt and no budget is left.
pub proof fn settled_devices_are_absent(p: Option<Phase>, now: u64, event: Event, later: u64)
    requires
        event is OpenFinished || event is PeerAcked || event is Forget,
    ensures
        transition(p, now, event) == (None::<Phase>, Effect::Nothing),
        reported(transition(p, now, event).0, later) is Absent,
{
}

/// Asks that are suppressed do not restart the window they are suppressed by.
pub proof fn suppressed_asks_do_not_extend_the_window(
    p: Option<Phase>,
    now: u64,
    event: Event,
)
    requires
        ({
            let e = transition(p, now, event).1;
            e is TearDownNotNeeded || e is DeferTearDown || e is DeferHeal || e is DeferOpen
        }),
    ensures
        teardown_of(p, now) is Some,
        teardown_of(transition(p, now, event).0, now) matches Some(r) && r.since_ms == teardown_of(
            p,
            now,
        )->Some_0.since_ms,
        !(event is WantToTearDown) ==> transition(p, now, event).0 == p,
        transition(p, now, event).1 is TearDownNotNeeded ==> transition(p, now, event).0 == p,
{
}

/// When a deferred ask may be made again; none for an effect that defers nothing.
pub open spec fn retry_after(e: Effect) -> Option<u64> {
    match e {
        Effect::DeferOpen { retry_after_ms } => Some(retry_after_ms),
        Effect::DeferHeal { retry_after_ms } => Some(retry_after_ms),
        Effect::DeferTearDown { retry_after_ms } => Some(retry_after_ms),
        _ => None,
    }
}

/// The alarm a deferral asks for comes after the window: the same question asked again at that time
/// or later is granted, unless something else happened to the device in between or the clock went
/// back.
#[verifier::spinoff_prover]
#[verifier::rlimit(30)]
pub proof fn a_deferred_ask_is_granted_at_its_alarm(
    p: Option<Phase>,
    now: u64,
    event: Event,
    later: u64,
)
    requires
        teardown_of(p, now) matches Some(r) ==> r.since_ms <= now,
        retry_after(transition(p, now, event).1) matches Some(ms) && later >= now + ms,
    ensures
        ({
            let e = transition(transition(p, now, event).0, later, event).1;
            e is Open || e is Heal || e is TearDown
        }),
{
    match event {
        Event::WantToOpen => {
            assert(open_transition(open_transition(p, now, false).0, later, false).1 is Open);
        },
        Event::WantToReopen { peer_rebuilds } => {
            assert(open_transition(
                open_transition(p, now, peer_rebuilds).0,
                later,
                peer_rebuilds,
            ).1 is Open);
        },
        Event::WantToTearDown { cause } => {
            assert(teardown_transition(
                teardown_transition(p, now, cause).0,
                later,
                cause,
            ).1 is TearDown);
        },
        Event::WantToHeal => {
            assert(heal_transition(heal_transition(p, now).0, later).1 is Heal);
        },
        Event::Timeout => {
            assert(timeout_transition(timeout_transition(p, now).0, later).1 is TearDown);
        },
        _ => {},
    }
}

/// What is stored about one device after the first `n` of a run of events.
pub open spec fn after_run(p: Option<Phase>, times: Seq<u64>, events: Seq<Event>, n: int) -> Option<
    Phase,
>
    decreases n,
{
    if n <= 0 {
        p
    } else {
        transition(after_run(p, times, events, n - 1), times[n - 1], events[n - 1]).0
    }
}

/// The effect of the `n`-th event of a run.
pub open spec fn run_effect(
    p: Option<Phase>,
    times: Seq<u64>,
    events: Seq<Event>,
    n: int,
) -> Effect {
    transition(after_run(p, times, events, n), times[n], events[n]).1
}

/// Whether an event belongs to the end of one ratchet and not to the next: nothing is asked on
/// evidence, and no session is opened, announced, answered or forgotten.
pub open spec fn without_evidence_or_rebuild(event: Event, effect: Effect) -> bool {
    &&& !(effect is Open)
    &&& !(event is SriAnnounced || event is OpenFinished || event is PeerAcked || event is Forget)
    &&& event != (Event::WantToTearDown { cause: TearDownCause::Unacknowledged })
}

/// `sent` still holds back a teardown at `now`, or no longer has to.
pub open spec fn spaced_from(p: Option<Phase>, sent: u64, now: u64) -> bool {
    ||| now >= sent + END_SESSION_COOLDOWN_MS
    ||| p matches Some(Phase::TearingDown { since_ms, owed, unacked, peer_asked, on_evidence })
        && since_ms >= sent && !(owed && on_evidence)
}

/// Without evidence, two teardowns of one ratchet lie at least `END_SESSION_COOLDOWN_MS` apart:
/// whatever else is asked between them, and whichever alarms of the device go off.
pub proof fn teardowns_are_spaced(
    p: Option<Phase>,
    times: Seq<u64>,
    events: Seq<Event>,
    i: int,
    j: int,
)
    requires
        0 <= i < j < events.len(),
        times.len() == events.len(),
        forall|a: int, b: int| i <= a <= b <= j ==> times[a] <= times[b],
        run_effect(p, times, events, i) is TearDown,
        run_effect(p, times, events, j) is TearDown,
        forall|a: int|
            i < a <= j ==> without_evidence_or_rebuild(
                #[trigger] events[a],
                run_effect(p, times, events, a),
            ),
    ensures
        times[j] >= times[i] + END_SESSION_COOLDOWN_MS,
{
    stays_spaced(p, times, events, i, j);
}

proof fn stays_spaced(p: Option<Phase>, times: Seq<u64>, events: Seq<Event>, i: int, n: int)
    requires
        0 <= i < n <= events.len(),
        times.len() == events.len(),
        forall|a: int, b: int| i <= a <= b < n ==> times[a] <= times[b],
        run_effect(p, times, events, i) is TearDown,
        forall|a: int|
            i < a < n ==> without_evidence_or_rebuild(
                #[trigger] events[a],
                run_effect(p, times, events, a),
            ),
    ensures
        spaced_from(after_run(p, times, events, n), times[i], times[n - 1]),
    decreases n,
{
    let before = after_run(p, times, events, n - 1);
    if n - 1 > i {
        stays_spaced(p, times, events, i, n - 1);
        assert(without_evidence_or_rebuild(events[n - 1], run_effect(p, times, events, n - 1)));
        assert(times[n - 2] <= times[n - 1]);
        assert(times[i] <= times[n - 1]);
    }
}

/// Evidence buys a few fast repeats, not an open channel: once the budget is spent an
/// evidence-driven ask is held to the ordinary window.
pub proof fn a_spent_budget_returns_the_ordinary_window(p: Option<Phase>, now: u64)
    requires
        teardown_of(p, now) matches Some(r) && r.unacked >= END_SESSION_MAX_UNACKED_RETRIES
            && elapsed(now, r.since_ms) < END_SESSION_COOLDOWN_MS,
    ensures
        transition(
            p,
            now,
            Event::WantToTearDown { cause: TearDownCause::Unacknowledged },
        ).1 is DeferTearDown,
{
}

/// The budget outlives its window: an evidence-driven send inside the lifetime of the budget counts
/// on from what was spent, and one after it starts over.
pub proof fn the_budget_is_per_storm(p: Option<Phase>, now: u64)
    requires
        transition(
            p,
            now,
            Event::WantToTearDown { cause: TearDownCause::Unacknowledged },
        ).1 is TearDown,
        p matches Some(Phase::TearingDown { since_ms, owed, unacked, peer_asked, on_evidence }),
    ensures
        ({
            let before = p->Some_0->TearingDown_unacked;
            let next = transition(
                p,
                now,
                Event::WantToTearDown { cause: TearDownCause::Unacknowledged },
            ).0->Some_0->TearingDown_unacked;
            if elapsed(now, p->Some_0->TearingDown_since_ms) < UNACKED_BUDGET_TTL_MS {
                next == counted(before, true)
            } else {
                next == 1
            }
        }),
{
}

/// The peer's own teardown discharges our debt, carries the budget, and makes a blind ask of ours
/// needless for the length of its quiet.
pub proof fn the_peers_teardown_answers_ours(p: Option<Phase>, now: u64, later: u64)
    requires
        !awaits_ack(p, now),
        elapsed(later, now) < PEER_TEARDOWN_QUIET_MS,
    ensures
        ({
            let next = transition(p, now, Event::PeerToreDown).0;
            &&& !owes(next)
            &&& teardown_of(p, now) matches Some(r) ==> teardown_of(next, now)->Some_0.unacked
                == r.unacked
            &&& transition(next, later, Event::WantToTearDown { cause: TearDownCause::Blind }) == (
                next,
                Effect::TearDownNotNeeded,
            )
            &&& transition(next, later, Event::Timeout).1 is Nothing
        }),
{
}

/// A teardown that crosses our unanswered announcement is about the ratchet the announcement
/// replaces: it changes nothing.
pub proof fn a_crossing_teardown_does_not_end_the_opening(p: Option<Phase>, now: u64)
    requires
        awaits_ack(p, now),
    ensures
        transition(p, now, Event::PeerToreDown) == (p, Effect::Nothing),
{
}

/// An unanswered announcement is given up, and the alarm is told so, once its window has run out —
/// also when the phase is already reported as absent.
pub proof fn a_lapsed_announcement_is_given_up(p: Option<Phase>, now: u64)
    requires
        p matches Some(Phase::Opening { since_ms, unacked_sri }) && unacked_sri > 0 && elapsed(
            now,
            since_ms,
        ) >= OPENING_CONFIRM_WINDOW_MS,
    ensures
        reported(p, now) is Absent,
        transition(p, now, Event::Timeout) == (None::<Phase>, Effect::GiveUpOpening),
{
}

/// An announcement goes out at most three times for one opening, whatever happens to it.
pub proof fn announcements_are_bounded(p: Option<Phase>, now: u64, event: Event)
    requires
        p matches Some(Phase::Opening { since_ms, unacked_sri }) ==> unacked_sri <= 3,
    ensures
        transition(p, now, event).0 matches Some(Phase::Opening { since_ms, unacked_sri })
            ==> unacked_sri <= 3,
{
}

/// A message that waits is held only for the peer's flush; a reopen nobody waits on is held at most
/// for the peer's turn.
pub proof fn opens_are_held_for_a_bounded_time(p: Option<Phase>, now: u64, event: Event)
    ensures
        transition(p, now, event).1 matches Effect::DeferOpen { retry_after_ms }
            ==> retry_after_ms <= RESPONDER_OVERRIDE_MS + 100,
        event is WantToOpen ==> (transition(p, now, event).1 matches Effect::DeferOpen {
            retry_after_ms,
        } ==> retry_after_ms <= REOPEN_QUIET_MS + 100),
{
}

/// A record that is not worth keeping answers every event as no record would. What is stored next
/// is the same too, but for two cases: a heal of a ratchet the peer tore down remembers that they
/// did, and a refused opening leaves the record where it is.
pub proof fn pruning_changes_no_answer(p: Phase, now: u64, event: Event)
    requires
        !worth_keeping(p, now),
    ensures
        transition(Some(p), now, event).1 == transition(None, now, event).1,
        reported(Some(p), now) == reported(None, now),
        !(event is WantToHeal && p->TearingDown_peer_asked) && !(event is OpenFailed)
            ==> transition(Some(p), now, event).0 == transition(
            None,
            now,
            event,
        ).0,
{
}

/// A session stays condemned only while its teardown is owed, whatever happens to the machine.
pub proof fn condemned_sessions_are_owed(
    m: MachineView,
    device: Seq<char>,
    now: u64,
    event: Event,
    session: Option<Seq<char>>,
    ids: Seq<Seq<char>>,
)
    requires
        condemned_are_owed(m),
    ensures
        condemned_are_owed(machine_step(m, device, now, event).0),
        condemned_are_owed(condemn_step(m, device, session)),
        condemned_are_owed(restored(m, ids, now)),
        condemned_are_owed(pruned(m, now)),
{
    let a = machine_step(m, device, now, event).0;
    assert forall|d: Seq<char>| #[trigger] a.condemned.contains_key(d) implies owes(
        str_map::lookup(a.phases, d),
    ) by {
        assert(m.condemned.contains_key(d));
    }
    let b = condemn_step(m, device, session);
    assert forall|d: Seq<char>| #[trigger] b.condemned.contains_key(d) implies owes(
        str_map::lookup(b.phases, d),
    ) by {
        if d != device {
            assert(m.condemned.contains_key(d));
        }
    }
    let c = restored(m, ids, now);
    assert forall|d: Seq<char>| #[trigger] c.condemned.contains_key(d) implies owes(
        str_map::lookup(c.phases, d),
    ) by {
        assert(m.condemned.contains_key(d));
        assert(!ids.to_set().contains(d));
    }
    let e = pruned(m, now);
    assert forall|d: Seq<char>| #[trigger] e.condemned.contains_key(d) implies owes(
        str_map::lookup(e.phases, d),
    ) by {
        assert(m.condemned.contains_key(d));
    }
}

/// A SESSION_RESET_INIT is applied at most once while it is the last one applied: the same
/// ephemeral key arriving again is a redelivery and changes nothing.
pub proof fn a_reset_init_is_applied_once(
    m: MachineView,
    device: Seq<char>,
    init_ephemeral: Seq<u8>,
    sent: u64,
    established: Option<u64>,
    sent_again: u64,
    established_again: Option<u64>,
)
    requires
        judge_step(m, device, init_ephemeral, sent, established).1 is Apply,
    ensures
        ({
            let next = judge_step(m, device, init_ephemeral, sent, established).0;
            judge_step(next, device, init_ephemeral, sent_again, established_again) == (
                next,
                ResetInitVerdict::Redelivery,
            )
        }),
{
}

} // verus!
