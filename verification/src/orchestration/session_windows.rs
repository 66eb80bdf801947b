//! The windows of the session machine, in milliseconds: what each event is answered, what is stored
//! of it, and when to come back.

use vstd::prelude::*;

use crate::orchestration::session_machine::{
    self, Effect, Event, MachineView, Phase, TearDownCause,
};
use crate::str_map;

verus! {

/// How long ago `since` was; no time at all when the clock went back.
pub open spec fn ago(now: u64, since: u64) -> int {
    if now > since {
        now - since
    } else {
        0
    }
}

/// An opening that is still believed: thirty seconds for an init that runs, seventy-five for one
/// that was announced to the peer.
pub open spec fn opening_lives(p: Option<Phase>, now: u64) -> bool {
    p matches Some(Phase::Opening { since_ms, unacked_sri }) && ago(now, since_ms) < (
    if unacked_sri == 0 {
        30_000int
    } else {
        75_000int
    })
}

/// What is reported of a device: an opening while it is believed, a teardown for thirty seconds,
/// and otherwise nothing.
pub proof fn what_is_reported(p: Option<Phase>, now: u64)
    ensures
        session_machine::reported(p, now) is Opening <==> opening_lives(p, now),
        session_machine::reported(p, now) is TearingDown <==> (p matches Some(
            Phase::TearingDown { since_ms, owed, unacked, peer_asked, on_evidence },
        ) && ago(now, since_ms) < 30_000),
        session_machine::reported(p, now) is Absent || Some(session_machine::reported(p, now)) == p,
        session_machine::awaits_ack(p, now) <==> opening_lives(p, now)
            && p->Some_0->Opening_unacked_sri > 0,
{
}

/// A session that is needed is opened, unless one is being opened already or the peer tore the
/// ratchet down in the last second and a half. A refusal says when to ask again and stores nothing.
pub proof fn a_needed_session_is_opened(p: Option<Phase>, now: u64)
    ensures
        ({
            let (next, effect) = session_machine::transition(p, now, Event::WantToOpen);
            let flushing = p matches Some(
                Phase::TearingDown { since_ms, owed, unacked, peer_asked, on_evidence },
            ) && peer_asked && ago(now, since_ms) < 1_500;
            &&& opening_lives(p, now) <==> effect is WaitForOpen
            &&& flushing <==> effect is DeferOpen
            &&& !opening_lives(p, now) && !flushing <==> effect is Open
            &&& effect matches Effect::DeferOpen { retry_after_ms } ==> retry_after_ms == 1_600
                - ago(now, p->Some_0->TearingDown_since_ms)
            &&& effect is Open ==> next == Some(Phase::Opening { since_ms: now, unacked_sri: 0 })
            &&& !(effect is Open) ==> next == p
        }),
{
}

/// A session that merely should come back leaves the peer a minute to rebuild it, where that is
/// the peer's part; otherwise it is opened as one that is needed.
pub proof fn a_wanted_session_waits_for_the_peer(p: Option<Phase>, now: u64, peer_rebuilds: bool)
    ensures
        ({
            let event = Event::WantToReopen { peer_rebuilds };
            let (next, effect) = session_machine::transition(p, now, event);
            let turn = p matches Some(
                Phase::TearingDown { since_ms, owed, unacked, peer_asked, on_evidence },
            ) && ago(now, since_ms) < 60_000;
            &&& !peer_rebuilds ==> (next, effect) == session_machine::transition(
                p,
                now,
                Event::WantToOpen,
            )
            &&& peer_rebuilds ==> {
                &&& opening_lives(p, now) <==> effect is WaitForOpen
                &&& turn <==> effect is DeferOpen
                &&& !opening_lives(p, now) && !turn <==> effect is Open
                &&& effect matches Effect::DeferOpen { retry_after_ms } ==> retry_after_ms == 60_100
                    - ago(now, p->Some_0->TearingDown_since_ms)
                &&& effect is Open ==> next == Some(
                    Phase::Opening { since_ms: now, unacked_sri: 0 },
                )
                &&& !(effect is Open) ==> next == p
            }
        }),
{
}

/// The first teardown of a ratchet is sent at once, whatever the cause.
pub proof fn a_first_teardown_is_sent(p: Option<Phase>, now: u64, cause: TearDownCause)
    requires
        !(p matches Some(Phase::TearingDown { since_ms, owed, unacked, peer_asked, on_evidence })),
    ensures
        session_machine::transition(p, now, Event::WantToTearDown { cause }) == (
            Some(
                Phase::TearingDown {
                    since_ms: now,
                    owed: false,
                    unacked: if cause is Unacknowledged {
                        1
                    } else {
                        0
                    },
                    peer_asked: false,
                    on_evidence: false,
                },
            ),
            Effect::TearDown,
        ),
{
}

/// A further teardown waits thirty seconds, and three while there is evidence that the last one did
/// not arrive and fewer than three were sent on such evidence within a minute. One that knows
/// nothing is needless for thirty seconds after the peer's own. One that waits is owed, and stays
/// due after the short wait if it ever was.
pub proof fn a_further_teardown_waits(
    now: u64,
    since_ms: u64,
    owed: bool,
    unacked: u32,
    peer_asked: bool,
    on_evidence: bool,
    cause: TearDownCause,
)
    ensures
        ({
            let p = Some(Phase::TearingDown { since_ms, owed, unacked, peer_asked, on_evidence });
            let (next, effect) = session_machine::transition(
                p,
                now,
                Event::WantToTearDown { cause },
            );
            let gone = ago(now, since_ms);
            let spent = if gone < 60_000 {
                unacked
            } else {
                0
            };
            let soon = cause is Unacknowledged && spent < 3;
            let wait = if soon {
                3_000int
            } else {
                30_000int
            };
            let needless = peer_asked && cause is Blind && gone < 30_000;
            &&& effect is TearDownNotNeeded <==> needless
            &&& effect is TearDown <==> !needless && gone >= wait
            &&& effect is DeferTearDown <==> !needless && gone < wait
            &&& effect matches Effect::DeferTearDown { retry_after_ms } ==> retry_after_ms == wait
                - gone + 100
            &&& effect is TearDownNotNeeded ==> next == p
            &&& effect is TearDown ==> {
                &&& next matches Some(Phase::TearingDown {
                    since_ms: s,
                    owed: o,
                    unacked: u,
                    peer_asked: a,
                    on_evidence: e,
                })
                    && s == now && !o && !a && !e && u == (if cause is Unacknowledged && spent
                    < u32::MAX {
                    spent + 1
                } else {
                    spent as int
                })
            }
            &&& effect is DeferTearDown ==> next == Some(
                Phase::TearingDown {
                    since_ms,
                    owed: true,
                    unacked: spent,
                    peer_asked,
                    on_evidence: soon || (owed && on_evidence),
                },
            )
        }),
{
}

/// A heal is granted unless the ratchet was torn down or healed in the last five seconds. It keeps
/// what is owed and what was spent, and starts the window anew.
pub proof fn a_heal_waits_five_seconds(p: Option<Phase>, now: u64)
    ensures
        ({
            let (next, effect) = session_machine::transition(p, now, Event::WantToHeal);
            match p {
                Some(
                    Phase::TearingDown { since_ms, owed, unacked, peer_asked, on_evidence },
                ) => if ago(now, since_ms) < 5_000 {
                    &&& next == p
                    &&& effect matches Effect::DeferHeal { retry_after_ms } && retry_after_ms
                        == 5_100 - ago(now, since_ms)
                } else {
                    &&& effect is Heal
                    &&& next == Some(
                        Phase::TearingDown {
                            since_ms: now,
                            owed,
                            unacked: if ago(now, since_ms) < 60_000 {
                                unacked
                            } else {
                                0
                            },
                            peer_asked,
                            on_evidence: owed && on_evidence,
                        },
                    )
                },
                _ => {
                    &&& effect is Heal
                    &&& next == Some(
                        Phase::TearingDown {
                            since_ms: now,
                            owed: false,
                            unacked: 0,
                            peer_asked: false,
                            on_evidence: false,
                        },
                    )
                },
            }
        }),
{
}

/// An announcement waits thirty seconds for its answer, and is repeated by the alarm after thirty
/// and after sixty seconds; after seventy-five it is given up. An init that was not announced is
/// let go after thirty seconds.
pub proof fn an_opening_meets_its_alarm(now: u64, since_ms: u64, unacked_sri: u32)
    ensures
        session_machine::transition(
            Some(Phase::Opening { since_ms, unacked_sri }),
            now,
            Event::SriAnnounced,
        ) == (
            Some(Phase::Opening { since_ms: now, unacked_sri: 1 }),
            Effect::AwaitAck { retry_after_ms: 30_100 },
        ),
        ({
            let p = Some(Phase::Opening { since_ms, unacked_sri });
            let (next, effect) = session_machine::transition(p, now, Event::Timeout);
            let gone = ago(now, since_ms);
            &&& unacked_sri == 0 ==> effect is Nothing && next == (if gone < 30_000 {
                p
            } else {
                None
            })
            &&& unacked_sri > 0 ==> {
                &&& effect is GiveUpOpening <==> gone >= 75_000
                &&& effect is ResendSri <==> gone < 75_000 && gone >= unacked_sri * 30_000
                &&& effect is Nothing <==> gone < 75_000 && gone < unacked_sri * 30_000
                &&& effect is GiveUpOpening ==> next is None
                &&& effect is Nothing ==> next == p
                &&& effect matches Effect::ResendSri { retry_after_ms } ==> {
                    &&& next == Some(
                        Phase::Opening { since_ms, unacked_sri: (unacked_sri + 1) as u32 },
                    )
                    &&& unacked_sri == 1 ==> retry_after_ms == (if gone < 60_000 {
                        60_100 - gone
                    } else {
                        100
                    })
                    &&& unacked_sri == 2 ==> retry_after_ms == 75_100 - gone
                }
            }
        }),
{
}

/// An announcement begins its wait anew, whatever was stored before.
pub proof fn an_announcement_begins_its_wait(p: Option<Phase>, now: u64)
    ensures
        session_machine::transition(p, now, Event::SriAnnounced) == (
            Some(Phase::Opening { since_ms: now, unacked_sri: 1 }),
            Effect::AwaitAck { retry_after_ms: 30_100 },
        ),
{
}

/// An alarm pays the teardown that is owed once its wait is over, three seconds for one asked for
/// on evidence and thirty otherwise, and lets a record go that is a minute old and owes nothing.
pub proof fn a_debt_meets_its_alarm(
    now: u64,
    since_ms: u64,
    owed: bool,
    unacked: u32,
    peer_asked: bool,
    on_evidence: bool,
)
    ensures
        ({
            let p = Some(Phase::TearingDown { since_ms, owed, unacked, peer_asked, on_evidence });
            let (next, effect) = session_machine::transition(p, now, Event::Timeout);
            let gone = ago(now, since_ms);
            let wait = if on_evidence {
                3_000int
            } else {
                30_000int
            };
            &&& effect is TearDown <==> owed && gone >= wait
            &&& effect is DeferTearDown <==> owed && gone < wait
            &&& effect is Nothing <==> !owed
            &&& effect matches Effect::DeferTearDown { retry_after_ms } ==> next == p
                && retry_after_ms == wait - gone + 100
            &&& effect is TearDown ==> next == Some(
                Phase::TearingDown {
                    since_ms: now,
                    owed: false,
                    unacked: if gone < 60_000 {
                        unacked
                    } else {
                        0
                    },
                    peer_asked: false,
                    on_evidence: false,
                },
            )
            &&& effect is Nothing ==> next == (if gone < 60_000 {
                p
            } else {
                None
            })
        }),
{
}

/// The peer's own teardown is stored with its time, whatever was stored before, but for an
/// announcement that still waits for its answer; it owes nothing and keeps what was spent within a
/// minute. Nothing is to be done about it.
pub proof fn the_peers_teardown_is_stored(p: Option<Phase>, now: u64)
    ensures
        ({
            let (next, effect) = session_machine::transition(p, now, Event::PeerToreDown);
            let waits = opening_lives(p, now) && p->Some_0->Opening_unacked_sri > 0;
            &&& effect is Nothing
            &&& waits ==> next == p
            &&& !waits ==> next == Some(
                Phase::TearingDown {
                    since_ms: now,
                    owed: false,
                    unacked: match p {
                        Some(
                            Phase::TearingDown { since_ms, owed, unacked, peer_asked, on_evidence },
                        ) => if ago(now, since_ms) < 60_000 {
                            unacked
                        } else {
                            0
                        },
                        _ => 0,
                    },
                    peer_asked: true,
                    on_evidence: false,
                },
            )
        }),
{
}

/// A refused init ends the opening and nothing else; with nothing stored an alarm does nothing.
pub proof fn a_refused_init_ends_the_opening(p: Option<Phase>, now: u64)
    ensures
        ({
            let (next, effect) = session_machine::transition(p, now, Event::OpenFailed);
            &&& effect is Nothing
            &&& p is Some && p->Some_0 is Opening ==> next is None
            &&& !(p is Some && p->Some_0 is Opening) ==> next == p
        }),
        session_machine::transition(None, now, Event::Timeout) == (None::<Phase>, Effect::Nothing),
{
}

/// A device is answered by its own record: the machine stores for it what the record becomes, says
/// what the record's event is answered, forgets what was condemned once nothing is owed, and
/// forgets the last reset only with the device.
pub proof fn a_device_is_answered_by_its_record(
    m: MachineView,
    device: Seq<char>,
    now: u64,
    event: Event,
)
    ensures
        ({
            let (next, effect) = session_machine::machine_step(m, device, now, event);
            let p = str_map::lookup(m.phases, device);
            let q = str_map::lookup(next.phases, device);
            &&& (q, effect) == session_machine::transition(p, now, event)
            &&& str_map::lookup(next.condemned, device) == (if q matches Some(
                Phase::TearingDown { since_ms, owed, unacked, peer_asked, on_evidence },
            ) && owed {
                str_map::lookup(m.condemned, device)
            } else {
                None
            })
            &&& str_map::lookup(next.resets, device) == (if event is Forget {
                None
            } else {
                str_map::lookup(m.resets, device)
            })
        }),
{
}

/// A session is condemned where a teardown of the device is owed, and only there.
pub proof fn a_condemned_session_is_named(
    m: MachineView,
    device: Seq<char>,
    session: Option<Seq<char>>,
    other: Seq<char>,
)
    ensures
        ({
            let next = session_machine::condemn_step(m, device, session);
            let owes = str_map::lookup(m.phases, device) matches Some(
                Phase::TearingDown { since_ms, owed, unacked, peer_asked, on_evidence },
            ) && owed;
            &&& owes ==> str_map::lookup(next.condemned, device) == session
            &&& !owes ==> next == m
            &&& other != device ==> str_map::lookup(next.condemned, other) == str_map::lookup(
                m.condemned,
                other,
            )
            &&& next.phases == m.phases
            &&& next.resets == m.resets
        }),
{
}

/// A reset that carries the key last applied is a redelivery, whenever it was sent. Any other is
/// applied when no session is established, or when it was sent in the second the session was
/// established or later; and it predates the session exactly when it was sent before that second.
pub proof fn a_reset_is_judged_by_key_and_time(
    m: MachineView,
    device: Seq<char>,
    key: Seq<u8>,
    sent_at_s: u64,
    established_at_s: Option<u64>,
)
    ensures
        ({
            let verdict = session_machine::judge_step(
                m,
                device,
                key,
                sent_at_s,
                established_at_s,
            ).1;
            let last = str_map::lookup(m.resets, device);
            &&& last == Some(key) <==> verdict is Redelivery
            &&& last != Some(key) ==> {
                &&& established_at_s is None ==> verdict is Apply
                &&& established_at_s matches Some(e) ==> (verdict is Apply <==> sent_at_s >= e)
                    && (verdict is PredatesSession <==> sent_at_s < e)
            }
        }),
{
}

/// The key of a reset is remembered when it is applied and only then, for its own device alone.
pub proof fn an_applied_reset_is_remembered(
    m: MachineView,
    device: Seq<char>,
    key: Seq<u8>,
    sent_at_s: u64,
    established_at_s: Option<u64>,
    other: Seq<char>,
)
    ensures
        ({
            let (next, verdict) = session_machine::judge_step(
                m,
                device,
                key,
                sent_at_s,
                established_at_s,
            );
            &&& verdict is Apply ==> str_map::lookup(next.resets, device) == Some(key)
            &&& !(verdict is Apply) ==> next == m
            &&& other != device ==> str_map::lookup(next.resets, other) == str_map::lookup(
                m.resets,
                other,
            )
            &&& next.phases == m.phases
            &&& next.condemned == m.condemned
        }),
{
}

/// A later reset is judged no worse than an earlier one with the same key, and a session that was
/// established later refuses no fewer.
pub proof fn later_resets_are_judged_no_worse(
    m: MachineView,
    device: Seq<char>,
    key: Seq<u8>,
    sent_at_s: u64,
    later_s: u64,
    established_at_s: u64,
    earlier_s: u64,
)
    requires
        sent_at_s <= later_s,
        earlier_s <= established_at_s,
        session_machine::judge_step(
            m,
            device,
            key,
            sent_at_s,
            Some(established_at_s),
        ).1 is Apply,
    ensures
        session_machine::judge_step(m, device, key, later_s, Some(earlier_s)).1 is Apply,
        session_machine::judge_step(m, device, key, sent_at_s, None).1 is Apply,
        session_machine::judge_step(m, device, key, established_at_s, Some(established_at_s)).1
            is Apply,
{
}

/// After a restart the devices named are being opened as of now, unannounced; of the others the
/// openings are forgotten and the teardowns kept, with what is condemned and the last resets.
pub proof fn a_restart_restores_the_openings(
    m: MachineView,
    ids: Seq<Seq<char>>,
    now: u64,
    device: Seq<char>,
)
    ensures
        ({
            let next = session_machine::restored(m, ids, now);
            &&& ids.contains(device) ==> str_map::lookup(next.phases, device) == Some(
                Phase::Opening { since_ms: now, unacked_sri: 0 },
            ) && str_map::lookup(next.condemned, device) is None
            &&& !ids.contains(device) ==> {
                &&& str_map::lookup(next.condemned, device) == str_map::lookup(m.condemned, device)
                &&& str_map::lookup(next.phases, device) == (match str_map::lookup(
                    m.phases,
                    device,
                ) {
                    Some(p) => if p is Opening {
                        None
                    } else {
                        Some(p)
                    },
                    None => None,
                })
            }
            &&& next.resets == m.resets
        }),
{
}

/// Pruning drops the teardowns that are a minute old and owe nothing, and nothing else.
pub proof fn only_spent_teardowns_are_pruned(m: MachineView, now: u64, device: Seq<char>)
    ensures
        ({
            let next = session_machine::pruned(m, now);
            let p = str_map::lookup(m.phases, device);
            let spent = p matches Some(
                Phase::TearingDown { since_ms, owed, unacked, peer_asked, on_evidence },
            ) && !owed && ago(now, since_ms) >= 60_000;
            &&& spent ==> str_map::lookup(next.phases, device) is None
            &&& !spent ==> str_map::lookup(next.phases, device) == p
            &&& next.condemned == m.condemned
            &&& next.resets == m.resets
        }),
{
}

} // verus!
