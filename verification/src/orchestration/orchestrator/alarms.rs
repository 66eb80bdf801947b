//! What each alarm leads to, read off its name: which device it reaches, what is paid, opened,
//! repeated or let go.

use vstd::prelude::*;

use crate::crypto::client_api::ClientView;
use crate::crypto::engine::CryptoEngine;
use crate::orchestration::ack_store;
use crate::orchestration::actions::{ActionView, EventView, SlotView};
use crate::orchestration::orchestrator::answering;
use crate::orchestration::orchestrator::events;
use crate::orchestration::orchestrator::timers;
use crate::orchestration::orchestrator::{self, OrchView};
use crate::orchestration::session_lifecycle::{self, LifeView};
use crate::orchestration::session_machine::{self, Effect, Event};
use crate::str_map;
use crate::strings;
use crate::vecs;

verus! {

/// The id of the session held with a device.
pub open spec fn current_session(o: OrchView, contact: Seq<char>) -> Option<Seq<char>> {
    match str_map::lookup(o.life.client.sessions, contact) {
        Some(s) => Some(s.session_id),
        None => None,
    }
}

/// The cooldown of a device is over: a teardown whose wait is over is sent, to the peer and the own
/// devices, unless a session is held that is not the one it condemned; one whose wait is not over
/// is waited for. A sweep is scheduled in any case.
pub proof fn the_cooldown_alarm_pays_the_debt<E: CryptoEngine>(
    engine: &E,
    o: OrchView,
    contact: Seq<char>,
    now: u64,
    next: OrchView,
    actions: Seq<ActionView>,
)
    requires
        events::event_may(
            engine,
            o,
            EventView::TimerFired { timer_id: "cooldown_expired:"@ + contact },
            now,
            next,
            actions,
        ),
    ensures
        answering::machine_moved(o, next, contact, now, Event::Timeout),
        ({
            let p = str_map::lookup(o.machine.phases, contact);
            let sweep = ActionView::ScheduleTimer { timer_id: "gc_sweep"@, delay_ms: 100 };
            let other = current_session(o, contact) is Some && current_session(o, contact)
                != str_map::lookup(o.machine.condemned, contact);
            match session_machine::transition(p, now, Event::Timeout).1 {
                Effect::TearDown => if other {
                    answering::answered_with(actions, seq![sweep])
                } else {
                    answering::answered_with(
                        actions,
                        seq![
                            sweep,
                            ActionView::SendEndSession { contact_id: contact },
                            ActionView::NotifyLinkedDevicesOfSessionReset { contact_id: contact },
                        ],
                    )
                },
                Effect::DeferTearDown { retry_after_ms } => answering::answered_with(
                    actions,
                    seq![
                        sweep,
                        ActionView::ScheduleTimer {
                            timer_id: "cooldown_expired:"@ + contact,
                            delay_ms: retry_after_ms,
                        },
                    ],
                ),
                _ => answering::answered_with(actions, seq![sweep]),
            }
        }),
{
    let event = EventView::TimerFired { timer_id: "cooldown_expired:"@ + contact };
    let (mid, answer) = answering::an_event_is_answered_first(engine, o, event, now, next, actions);
    timers::alarms_reach_their_device(o, contact, now, mid, answer);
    let sweep = ActionView::ScheduleTimer { timer_id: "gc_sweep"@, delay_ms: 100 };
    let paid = seq![
        sweep,
        ActionView::SendEndSession { contact_id: contact },
        ActionView::NotifyLinkedDevicesOfSessionReset { contact_id: contact },
    ];
    if answer.len() == 3 {
        assert(answer =~= paid);
    }
    if answer.len() == 1 {
        assert(answer =~= seq![sweep]);
    }
}

/// The wait before a reopen is over: where a session is held meanwhile, it is not needed, and
/// nothing is stored of the device any more; otherwise the session is opened, or waited for again.
pub proof fn the_reopen_alarm_opens<E: CryptoEngine>(
    engine: &E,
    o: OrchView,
    contact: Seq<char>,
    now: u64,
    next: OrchView,
    actions: Seq<ActionView>,
)
    requires
        events::event_may(
            engine,
            o,
            EventView::TimerFired { timer_id: "reopen:"@ + contact },
            now,
            next,
            actions,
        ),
    ensures
        o.life.client.sessions.contains_key(contact) ==> {
            &&& answering::machine_moved(o, next, contact, now, Event::OpenFinished)
            &&& answering::answered_with(
                actions,
                seq![ActionView::OpenNotNeeded { contact_id: contact }],
            )
        },
        !o.life.client.sessions.contains_key(contact) ==> {
            let p = str_map::lookup(o.machine.phases, contact);
            &&& answering::machine_moved(o, next, contact, now, Event::WantToOpen)
            &&& match session_machine::transition(p, now, Event::WantToOpen).1 {
                Effect::DeferOpen { retry_after_ms } => answering::answered_with(
                    actions,
                    seq![
                        ActionView::ScheduleTimer {
                            timer_id: "reopen:"@ + contact,
                            delay_ms: retry_after_ms,
                        },
                    ],
                ),
                Effect::WaitForOpen => answering::answered_with(actions, Seq::empty()),
                _ => answering::answered_with(
                    actions,
                    seq![ActionView::OpenSession { contact_id: contact }],
                ),
            }
        },
{
    let event = EventView::TimerFired { timer_id: "reopen:"@ + contact };
    let (mid, answer) = answering::an_event_is_answered_first(engine, o, event, now, next, actions);
    timers::alarms_reach_their_device(o, contact, now, mid, answer);
}

/// The wait for the peer's answer is over: the announcement is repeated and waited for again, or
/// the opening is given up, as its age says; a teardown that is due is paid.
pub proof fn the_confirm_alarm_repeats_or_gives_up<E: CryptoEngine>(
    engine: &E,
    o: OrchView,
    contact: Seq<char>,
    now: u64,
    next: OrchView,
    actions: Seq<ActionView>,
)
    requires
        events::event_may(
            engine,
            o,
            EventView::TimerFired { timer_id: "open_confirm:"@ + contact },
            now,
            next,
            actions,
        ),
    ensures
        answering::machine_moved(o, next, contact, now, Event::Timeout),
        ({
            let p = str_map::lookup(o.machine.phases, contact);
            let other = current_session(o, contact) is Some && current_session(o, contact)
                != str_map::lookup(o.machine.condemned, contact);
            match session_machine::transition(p, now, Event::Timeout).1 {
                Effect::ResendSri { retry_after_ms } => answering::answered_with(
                    actions,
                    seq![
                        ActionView::ResendSri { contact_id: contact },
                        ActionView::ScheduleTimer {
                            timer_id: "open_confirm:"@ + contact,
                            delay_ms: retry_after_ms,
                        },
                    ],
                ),
                Effect::GiveUpOpening => answering::answered_with(
                    actions,
                    seq![ActionView::OpeningGaveUp { contact_id: contact }],
                ),
                Effect::TearDown => if other {
                    answering::answered_with(actions, Seq::empty())
                } else {
                    answering::answered_with(
                        actions,
                        seq![
                            ActionView::SendEndSession { contact_id: contact },
                            ActionView::NotifyLinkedDevicesOfSessionReset { contact_id: contact },
                        ],
                    )
                },
                _ => answering::answered_with(actions, Seq::empty()),
            }
        }),
{
    let event = EventView::TimerFired { timer_id: "open_confirm:"@ + contact };
    let (mid, answer) = answering::an_event_is_answered_first(engine, o, event, now, next, actions);
    timers::alarms_reach_their_device(o, contact, now, mid, answer);
}

/// An alarm with any other name does nothing.
pub proof fn an_unknown_alarm_does_nothing<E: CryptoEngine>(
    engine: &E,
    o: OrchView,
    timer_id: Seq<char>,
    now: u64,
    next: OrchView,
    actions: Seq<ActionView>,
)
    requires
        events::event_may(engine, o, EventView::TimerFired { timer_id }, now, next, actions),
        timer_id != "gc_sweep"@,
        timer_id != "pq_upgrade_sweep"@,
        !"cooldown_expired:"@.is_prefix_of(timer_id),
        !"reopen:"@.is_prefix_of(timer_id),
        !"open_confirm:"@.is_prefix_of(timer_id),
    ensures
        answering::same_but_held(next, o),
        answering::answered_with(actions, Seq::empty()),
{
    let event = EventView::TimerFired { timer_id };
    let (mid, answer) = answering::an_event_is_answered_first(engine, o, event, now, next, actions);
}

// ── Sweeping ────────────────────────────────────────────────────────────────

/// An archive older than a day.
pub open spec fn archive_is_old(l: LifeView, k: Seq<char>, now: u64) -> bool {
    l.archive_times.contains_key(k) && l.archive_times[k] + 86_400 < now / 1000
}

/// The sweep drops the archives that are older than a day, and deletes each of them from the store,
/// once; it drops the records of processed messages and of heals that outlived their time, and the
/// teardowns a minute old that owe nothing; and it asks the durable store to drop what it dropped.
/// It touches nothing else.
pub proof fn a_sweep_drops_what_is_old<E: CryptoEngine>(
    engine: &E,
    o: OrchView,
    now: u64,
    next: OrchView,
    actions: Seq<ActionView>,
) -> (order: Seq<Seq<char>>)
    requires
        events::event_may(
            engine,
            o,
            EventView::TimerFired { timer_id: "gc_sweep"@ },
            now,
            next,
            actions,
        ),
    ensures
        order.no_duplicates(),
        forall|k: Seq<char>| #[trigger] order.contains(k) <==> archive_is_old(o.life, k, now),
        answering::only_hands_back_after(actions, order.len() + 1),
        forall|i: int|
            0 <= i < order.len() ==> #[trigger] actions[i] == (ActionView::SaveToSecureStore {
                slot: SlotView::SessionArchive { contact_id: order[i] },
                data: Seq::empty(),
            }),
        actions[order.len() as int] matches ActionView::PruneAckStore { cutoff_ts } && cutoff_ts
            == (if now / 1000 > o.life.ack.ttl_secs {
            now / 1000 - o.life.ack.ttl_secs
        } else {
            0
        }),
        forall|k: Seq<char>| #[trigger]
            next.life.archives.contains_key(k) <==> o.life.archives.contains_key(k)
                && !archive_is_old(o.life, k, now),
        forall|k: Seq<char>| #[trigger]
            next.life.archive_times.contains_key(k) <==> o.life.archive_times.contains_key(k)
                && !archive_is_old(o.life, k, now),
        forall|k: Seq<char>| #[trigger]
            next.life.ack.processed.contains_key(k) <==> o.life.ack.processed.contains_key(k)
                && o.life.ack.processed[k] + o.life.ack.ttl_secs >= now / 1000,
        forall|k: Seq<char>| #[trigger]
            next.life.healing.records.contains_key(k) <==> o.life.healing.records.contains_key(k)
                && (o.life.healing.ttl_secs == 0 ==> now / 1000
                < o.life.healing.records[k].created_at) && (o.life.healing.ttl_secs > 0 ==> now
                / 1000 < o.life.healing.records[k].created_at + o.life.healing.ttl_secs),
        next.life.archives.submap_of(o.life.archives),
        next.life.archive_times.submap_of(o.life.archive_times),
        next.life.ack.processed.submap_of(o.life.ack.processed),
        next.life.healing.records.submap_of(o.life.healing.records),
        next.life.client == o.life.client,
        next.life.deferred == o.life.deferred,
        next.life.prekeys == o.life.prekeys,
        next.life.pins == o.life.pins,
        next.router == o.router,
        next.machine == session_machine::pruned(o.machine, now),
{
    let event = EventView::TimerFired { timer_id: "gc_sweep"@ };
    let (mid, answer) = answering::an_event_is_answered_first(engine, o, event, now, next, actions);
    let order = choose|order: Seq<Seq<char>>| #[trigger]
        session_lifecycle::names_stale(order, o.life, now) && answer == order.map_values(
            |k: Seq<char>| session_lifecycle::delete_archive(k),
        ) + seq![
            ActionView::PruneAckStore {
                cutoff_ts: ack_store::ack_cutoff(o.life.ack, now),
            },
        ];
    assert forall|i: int| 0 <= i < answer.len() implies #[trigger] actions[i] == answer[i] by {
        assert(actions.take(answer.len() as int)[i] == answer[i]);
    }
    assert forall|k: Seq<char>| #[trigger] order.contains(k) <==> archive_is_old(
        o.life,
        k,
        now,
    ) by {
        assert(order.contains(k) <==> session_lifecycle::archive_stale(o.life, k, now));
    }
    order
}

/// The records of a new state live thirty days for messages, a day for heals, and a heal is tried
/// fewer than three times.
pub proof fn the_lifetimes_of_a_new_state(
    client: ClientView,
    user_id: Seq<char>,
)
    ensures
        ({
            let l = orchestrator::fresh(client, user_id).life;
            &&& l.ack.ttl_secs == 30 * 24 * 60 * 60
            &&& l.healing.ttl_secs == 24 * 60 * 60
            &&& l.healing.max_attempts == 3
            &&& l.my_user_id == user_id
            &&& l.client.local_user_id == user_id
        }),
{
}

// ── Upgrading ───────────────────────────────────────────────────────────────

/// A session the sweep is to upgrade: without a post-quantum secret, with a device of a lower id,
/// and not asked for since the launch.
pub open spec fn to_upgrade(o: OrchView, k: Seq<char>) -> bool {
    &&& o.life.client.sessions.contains_key(k)
    &&& o.life.client.sessions[k].pq_handshake is Classical
    &&& strings::lex_less(k, o.life.client.local_user_id)
    &&& !o.upgrade_asked.contains(k)
}

/// Whether the record of a device lets its session be opened now.
pub open spec fn may_open(o: OrchView, k: Seq<char>, now: u64) -> bool {
    session_machine::transition(
        str_map::lookup(o.machine.phases, k),
        now,
        Event::WantToReopen { peer_rebuilds: false },
    ).1 is Open
}

proof fn upgrades_one_by_one(o: OrchView, cs: Seq<Seq<char>>, now: u64)
    requires
        cs.no_duplicates(),
    ensures
        ({
            let (next, actions) = timers::upgrades_asked(o, cs, now);
            &&& next == (OrchView {
                machine: next.machine,
                upgrade_asked: next.upgrade_asked,
                ..o
            })
            &&& forall|k: Seq<char>| #[trigger]
                next.upgrade_asked.contains(k) <==> o.upgrade_asked.contains(k) || cs.contains(k)
            &&& forall|k: Seq<char>|
                !cs.contains(k) ==> #[trigger] str_map::lookup(next.machine.phases, k)
                    == str_map::lookup(o.machine.phases, k)
            &&& forall|i: int|
                #![trigger cs[i]]
                0 <= i < cs.len() ==> (actions.contains(
                    ActionView::OpenSession { contact_id: cs[i] },
                ) <==> may_open(o, cs[i], now))
            &&& forall|j: int|
                0 <= j < actions.len() ==> #[trigger] actions[j] is OpenSession && cs.contains(
                    actions[j]->OpenSession_contact_id,
                )
        }),
    decreases cs.len(),
{
    if cs.len() > 0 {
        let front = cs.drop_last();
        let k = cs.last();
        upgrades_one_by_one(o, front, now);
        let (mid, before) = timers::upgrades_asked(o, front, now);
        let (next, actions) = timers::upgrades_asked(o, cs, now);
        assert(cs =~= front.push(k));
        assert forall|c: Seq<char>| #[trigger] cs.contains(c) <==> front.contains(c) || c == k by {
            vecs::push_contains(front, k, c);
        }
        assert(!front.contains(k));
        let opened = ActionView::OpenSession { contact_id: k };
        assert(str_map::lookup(mid.machine.phases, k) == str_map::lookup(o.machine.phases, k));
        assert(!before.contains(opened));
        assert forall|a: ActionView| #[trigger] actions.contains(a) <==> before.contains(a) || (a
            == opened && may_open(o, k, now)) by {
            if may_open(o, k, now) {
                vecs::push_contains(before, opened, a);
            }
        }
        assert forall|j: int| 0 <= j < actions.len() implies #[trigger] actions[j] is OpenSession
            && cs.contains(actions[j]->OpenSession_contact_id) by {
            if j < before.len() {
                assert(actions[j] == before[j]);
                assert(front.contains(before[j]->OpenSession_contact_id));
                assert(cs.contains(before[j]->OpenSession_contact_id));
            } else {
                assert(cs.contains(k));
            }
        }
        assert forall|c: Seq<char>| #[trigger] next.upgrade_asked.contains(c)
            <==> o.upgrade_asked.contains(c) || cs.contains(c) by {
            assert(next.upgrade_asked.contains(c) <==> mid.upgrade_asked.contains(c) || c == k);
            assert(cs.contains(c) <==> front.contains(c) || c == k);
        }
        assert forall|c: Seq<char>| !cs.contains(c) implies #[trigger] str_map::lookup(
            next.machine.phases,
            c,
        ) == str_map::lookup(o.machine.phases, c) by {
            assert(cs.contains(c) <==> front.contains(c) || c == k);
            assert(str_map::lookup(mid.machine.phases, c) == str_map::lookup(o.machine.phases, c));
        }
        assert forall|i: int|
            #![trigger cs[i]]
            0 <= i < cs.len() implies (actions.contains(
            ActionView::OpenSession { contact_id: cs[i] },
        ) <==> may_open(o, cs[i], now)) by {
            if i < front.len() {
                assert(front[i] == cs[i]);
                assert(front.contains(cs[i]));
            }
        }
    }
}

/// The upgrade sweep takes the sessions to upgrade in the order of their ids, eight at most, and
/// asks for each of them whose record allows it, once; those it took are not asked again. If more
/// are left, it comes back after thirty seconds.
pub proof fn an_upgrade_sweep_takes_eight<E: CryptoEngine>(
    engine: &E,
    o: OrchView,
    now: u64,
    next: OrchView,
    actions: Seq<ActionView>,
) -> (w: (Seq<Seq<char>>, Seq<ActionView>))
    requires
        events::event_may(
            engine,
            o,
            EventView::TimerFired { timer_id: "pq_upgrade_sweep"@ },
            now,
            next,
            actions,
        ),
    ensures
        ({
            let (cs, answer) = w;
            let n = if cs.len() < 8 {
                cs.len() as int
            } else {
                8
            };
            &&& forall|i: int, j: int|
                0 <= i < j < cs.len() ==> #[trigger] strings::lex_less(cs[i], cs[j])
            &&& forall|k: Seq<char>| #[trigger] cs.contains(k) <==> to_upgrade(o, k)
            &&& answering::answered_with(actions, answer)
            &&& forall|k: Seq<char>| #[trigger]
                next.upgrade_asked.contains(k) <==> o.upgrade_asked.contains(k) || cs.take(
                    n,
                ).contains(k)
            &&& forall|i: int|
                #![trigger cs[i]]
                0 <= i < n ==> (answer.contains(
                    ActionView::OpenSession { contact_id: cs[i] },
                ) <==> may_open(o, cs[i], now))
            &&& forall|j: int|
                0 <= j < answer.len() ==> (#[trigger] answer[j] is OpenSession && cs.take(
                    n,
                ).contains(answer[j]->OpenSession_contact_id)) || (cs.len() > 8 && j
                    == answer.len() - 1)
            &&& cs.len() > 8 ==> answer.len() > 0 && answer.last() == (
            ActionView::ScheduleTimer { timer_id: "pq_upgrade_sweep"@, delay_ms: 30_000 })
            &&& next.life == o.life
            &&& next.router == o.router
        }),
{
    let event = EventView::TimerFired { timer_id: "pq_upgrade_sweep"@ };
    let (mid, answer) = answering::an_event_is_answered_first(engine, o, event, now, next, actions);
    reveal_strlit("gc_sweep");
    reveal_strlit("pq_upgrade_sweep");
    assert("gc_sweep"@[0] == 'g');
    assert("pq_upgrade_sweep"@[0] == 'p');
    let cs = choose|cs: Seq<Seq<char>>|
        timers::lists_candidates(cs, o) && (mid, answer) == #[trigger] timers::upgrade_swept(
            o,
            cs,
            now,
        );
    let n = timers::batch_of(cs.len());
    let batch = cs.take(n);
    assert forall|i: int, j: int| 0 <= i < j < cs.len() implies cs[i] != cs[j] by {
        assert(strings::lex_less(cs[i], cs[j]));
        strings::lex_asymmetric(cs[i], cs[j]);
    }
    assert(batch.no_duplicates());
    upgrades_one_by_one(o, batch, now);
    let asked = timers::upgrades_asked(o, batch, now).1;
    assert forall|k: Seq<char>| #[trigger] cs.contains(k) <==> to_upgrade(o, k) by {
        assert(cs.contains(k) <==> timers::is_candidate(o, k));
    }
    assert forall|i: int|
        #![trigger cs[i]]
        0 <= i < n implies (answer.contains(ActionView::OpenSession { contact_id: cs[i] })
        <==> may_open(o, cs[i], now)) by {
        assert(batch[i] == cs[i]);
        if cs.len() > 8 {
            vecs::push_contains(
                asked,
                answer.last(),
                ActionView::OpenSession { contact_id: cs[i] },
            );
        }
    }
    (cs, answer)
}

} // verus!
