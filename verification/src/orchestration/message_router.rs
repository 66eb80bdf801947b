//! Routing: what an incoming message means for the session it arrived on.
//!
//! The router never acts. It tries a message on the session it belongs to, keeps the messages that
//! must wait, and returns a decision; the orchestrator turns decisions into actions.

use vstd::prelude::*;

use crate::crypto::engine::CryptoEngine;
use crate::crypto::messaging::double_ratchet::MESSAGE_KEY_CONSUMED;
use crate::orchestration::ack_store::{self, AckCheckResult};
use crate::orchestration::actions::{Action, ActionView};
use crate::orchestration::clock::Clock;
use crate::orchestration::healing_queue::{self, HealDirection};
use crate::orchestration::session_lifecycle::{
    self, DecryptResult, DecryptResultView, LifeView, SessionLifecycleManager,
};
use crate::str_map::{self, StrMap};
use crate::strings::{self, has_prefix, join, same_str, str_less};
use crate::vecs;

verus! {

/// The content type of a SESSION_RESET_INIT, the message that announces a new session.
pub const CT_SESSION_RESET_INIT: u8 = 15;

/// How many messages of one device may wait for a session.
pub const MAX_QUEUED_PER_CONTACT: usize = 100;

/// A message as it arrived.
#[derive(Debug)]
pub struct IncomingMessage {
    pub contact_id: String,
    pub wire_payload: Vec<u8>,
    pub message_id: String,
    pub msg_number: u32,
    /// A control frame: the peer ends the session.
    pub is_control: bool,
    pub content_type: u8,
}

/// An `IncomingMessage` by what its fields hold.
pub struct MessageView {
    pub contact_id: Seq<char>,
    pub wire_payload: Seq<u8>,
    pub message_id: Seq<char>,
    pub msg_number: u32,
    pub is_control: bool,
    pub content_type: u8,
}

impl DeepView for IncomingMessage {
    type V = MessageView;

    open spec fn deep_view(&self) -> MessageView {
        MessageView {
            contact_id: self.contact_id@,
            wire_payload: self.wire_payload@,
            message_id: self.message_id@,
            msg_number: self.msg_number,
            is_control: self.is_control,
            content_type: self.content_type,
        }
    }
}

impl Clone for IncomingMessage {
    fn clone(&self) -> (r: Self)
        ensures
            r.deep_view() == self.deep_view(),
    {
        IncomingMessage {
            contact_id: self.contact_id.clone(),
            wire_payload: vecs::bytes(self.wire_payload.as_slice()),
            message_id: self.message_id.clone(),
            msg_number: self.msg_number,
            is_control: self.is_control,
            content_type: self.content_type,
        }
    }
}

/// A message the ratchet would not open.
#[derive(Debug)]
pub struct Refused {
    pub message_id: String,
    /// Whether the message opens a session.
    pub opens_session: bool,
    pub message: IncomingMessage,
}

/// A `Refused` by what its fields hold.
pub struct RefusedView {
    pub message_id: Seq<char>,
    pub opens_session: bool,
    pub message: MessageView,
}

impl DeepView for Refused {
    type V = RefusedView;

    open spec fn deep_view(&self) -> RefusedView {
        RefusedView {
            message_id: self.message_id@,
            opens_session: self.opens_session,
            message: self.message.deep_view(),
        }
    }
}

/// What a message means.
#[derive(Debug)]
pub enum RoutingDecision {
    /// It was decrypted; `actions` persist what that changed.
    Decrypted {
        contact_id: String,
        message_id: String,
        plaintext: Vec<u8>,
        content_type: u8,
        actions: Vec<Action>,
    },
    /// It waits for a session.
    NeedSessionInit { contact_id: String, queued_count: usize },
    /// The session must be rebuilt from it.
    SessionHealNeeded {
        contact_id: String,
        role: Role,
        is_handshake: bool,
        reason: String,
        refused: Refused,
    },
    /// The session it was encrypted on is gone.
    EndSessionNeeded { contact_id: String, reason: String, refused: Refused },
    /// It was processed before.
    Duplicate { message_id: String },
    /// Only the durable store can tell whether it was processed before.
    PendingAckCheck { message_id: String },
    /// Too many messages wait for a session with this device.
    QueueFull { contact_id: String },
    /// The peer ended the session.
    EndSessionReceived { contact_id: String, actions: Vec<Action> },
    /// It cannot be routed.
    Error { message: String },
}

/// A `RoutingDecision` by what its fields hold.
pub enum DecisionView {
    Decrypted {
        contact_id: Seq<char>,
        message_id: Seq<char>,
        plaintext: Seq<u8>,
        content_type: u8,
        actions: Seq<ActionView>,
    },
    NeedSessionInit { contact_id: Seq<char>, queued_count: usize },
    SessionHealNeeded {
        contact_id: Seq<char>,
        role: Role,
        is_handshake: bool,
        reason: Seq<char>,
        refused: RefusedView,
    },
    EndSessionNeeded { contact_id: Seq<char>, reason: Seq<char>, refused: RefusedView },
    Duplicate { message_id: Seq<char> },
    PendingAckCheck { message_id: Seq<char> },
    QueueFull { contact_id: Seq<char> },
    EndSessionReceived { contact_id: Seq<char>, actions: Seq<ActionView> },
    Error { message: Seq<char> },
}

impl DeepView for RoutingDecision {
    type V = DecisionView;

    open spec fn deep_view(&self) -> DecisionView {
        match self {
            RoutingDecision::Decrypted {
                contact_id,
                message_id,
                plaintext,
                content_type,
                actions,
            } => DecisionView::Decrypted {
                contact_id: contact_id@,
                message_id: message_id@,
                plaintext: plaintext@,
                content_type: *content_type,
                actions: actions.deep_view(),
            },
            RoutingDecision::NeedSessionInit {
                contact_id,
                queued_count,
            } => DecisionView::NeedSessionInit {
                contact_id: contact_id@,
                queued_count: *queued_count,
            },
            RoutingDecision::SessionHealNeeded {
                contact_id,
                role,
                is_handshake,
                reason,
                refused,
            } => DecisionView::SessionHealNeeded {
                contact_id: contact_id@,
                role: *role,
                is_handshake: *is_handshake,
                reason: reason@,
                refused: refused.deep_view(),
            },
            RoutingDecision::EndSessionNeeded {
                contact_id,
                reason,
                refused,
            } => DecisionView::EndSessionNeeded {
                contact_id: contact_id@,
                reason: reason@,
                refused: refused.deep_view(),
            },
            RoutingDecision::Duplicate { message_id } => DecisionView::Duplicate {
                message_id: message_id@,
            },
            RoutingDecision::PendingAckCheck { message_id } => DecisionView::PendingAckCheck {
                message_id: message_id@,
            },
            RoutingDecision::QueueFull { contact_id } => DecisionView::QueueFull {
                contact_id: contact_id@,
            },
            RoutingDecision::EndSessionReceived {
                contact_id,
                actions,
            } => DecisionView::EndSessionReceived {
                contact_id: contact_id@,
                actions: actions.deep_view(),
            },
            RoutingDecision::Error { message } => DecisionView::Error { message: message@ },
        }
    }
}

/// Which side of a handshake a device takes.
#[derive(Debug, Clone, Copy, PartialEq, Eq, Structural)]
pub enum Role {
    Initiator,
    Responder,
}

impl Role {
    /// The spelling of a role on the wire.
    pub open spec fn wire(self) -> Seq<char> {
        match self {
            Role::Initiator => "Initiator"@,
            Role::Responder => "Responder"@,
        }
    }

    /// The spelling of a role on the wire.
    pub fn as_wire(&self) -> (r: &'static str)
        ensures
            r@ == self.wire(),
    {
        match self {
            Role::Initiator => "Initiator",
            Role::Responder => "Responder",
        }
    }
}

/// The role of the device `mine` towards `theirs`: the higher id initiates.
pub open spec fn role_of(mine: Seq<char>, theirs: Seq<char>) -> Role {
    if strings::lex_less(theirs, mine) {
        Role::Initiator
    } else {
        Role::Responder
    }
}

/// Settles a collision: the device with the higher id is the INITIATOR, any other the RESPONDER —
/// also a device ranked against itself.
pub fn tie_break_role(my_id: &str, their_id: &str) -> (r: Role)
    ensures
        r == role_of(my_id@, their_id@),
{
    if str_less(their_id, my_id) {
        Role::Initiator
    } else {
        Role::Responder
    }
}


// ── What waits ──────────────────────────────────────────────────────────────

/// The contents of a `MessageRouter`.
#[verifier::ext_equal]
pub struct RouterView {
    /// The messages of each device that wait for a session, in the order they arrived.
    pub queues: Map<Seq<char>, Seq<MessageView>>,
    /// The messages that wait for the durable ACK store, by message id.
    pub unchecked: Map<Seq<char>, MessageView>,
}

/// The messages of one device that wait for a session.
pub open spec fn waiting(r: RouterView, contact: Seq<char>) -> Seq<MessageView> {
    match str_map::lookup(r.queues, contact) {
        Some(q) => q,
        None => Seq::empty(),
    }
}

/// Whether a message of this id is in the list.
pub open spec fn has_id(q: Seq<MessageView>, id: Seq<char>) -> bool {
    exists|i: int| 0 <= i < q.len() && #[trigger] q[i].message_id == id
}

/// The router with the waiting messages of one device replaced.
pub open spec fn with_queue(r: RouterView, contact: Seq<char>, q: Seq<MessageView>) -> RouterView {
    RouterView {
        queues: if q.len() == 0 {
            r.queues.remove(contact)
        } else {
            r.queues.insert(contact, q)
        },
        ..r
    }
}

/// The list with `m` behind it, unless a copy of it waits already.
pub open spec fn queued(q: Seq<MessageView>, m: MessageView) -> Seq<MessageView> {
    if has_id(q, m.message_id) {
        q
    } else {
        q.push(m)
    }
}

/// Keeps `m` until its device has a session. A copy of a message that waits is not a second
/// message; a full queue takes no more.
pub open spec fn enqueued(r: RouterView, m: MessageView) -> (RouterView, DecisionView) {
    let q = waiting(r, m.contact_id);
    if !has_id(q, m.message_id) && q.len() >= MAX_QUEUED_PER_CONTACT {
        (r, DecisionView::QueueFull { contact_id: m.contact_id })
    } else {
        (
            with_queue(r, m.contact_id, queued(q, m)),
            DecisionView::NeedSessionInit {
                contact_id: m.contact_id,
                queued_count: queued(q, m).len() as usize,
            },
        )
    }
}

/// The router after the message a heal starts from joined what waits for a session.
pub open spec fn held_for_open(r: RouterView, m: MessageView) -> RouterView {
    with_queue(r, m.contact_id, queued(waiting(r, m.contact_id), m))
}

/// The list without the messages of this id.
pub open spec fn without_id(q: Seq<MessageView>, id: Seq<char>) -> Seq<MessageView> {
    q.filter(|m: MessageView| m.message_id != id)
}

/// The list `more` behind the list `q`, each message once.
pub open spec fn merged(q: Seq<MessageView>, more: Seq<MessageView>) -> Seq<MessageView>
    decreases more.len(),
{
    if more.len() == 0 {
        q
    } else {
        queued(merged(q, more.drop_last()), more.last())
    }
}

/// The message as one of another device.
pub open spec fn readdressed(m: MessageView, contact: Seq<char>) -> MessageView {
    MessageView { contact_id: contact, ..m }
}

/// The router after everything that waited for `from` was filed under `to`.
pub open spec fn rekeyed(r: RouterView, from: Seq<char>, to: Seq<char>) -> RouterView {
    if from == to {
        r
    } else {
        with_queue(
            with_queue(r, from, Seq::empty()),
            to,
            merged(
                waiting(r, to),
                waiting(r, from).map_values(|m: MessageView| readdressed(m, to)),
            ),
        )
    }
}

/// The router with everything of one device forgotten.
pub open spec fn router_forgot(r: RouterView, contact: Seq<char>) -> RouterView {
    RouterView {
        queues: r.queues.remove(contact),
        unchecked: Map::new(
            |k: Seq<char>| r.unchecked.contains_key(k) && r.unchecked[k].contact_id != contact,
            |k: Seq<char>| r.unchecked[k],
        ),
    }
}

// ── What a message means ────────────────────────────────────────────────────

/// Whether a message announces a new session.
pub open spec fn opens_session(m: MessageView) -> bool {
    m.content_type == CT_SESSION_RESET_INIT
}

/// The message as one the ratchet would not open.
pub open spec fn refused_view(m: MessageView) -> RefusedView {
    RefusedView { message_id: m.message_id, opens_session: opens_session(m), message: m }
}

/// What follows when the ratchet refuses `m` for `reason`.
///
/// A key that was used up before makes `m` a copy of a message already read. The first message of
/// a chain asks for a heal, as long as the peer has not raised too many; anything else was
/// encrypted on a session that is gone.
pub open spec fn refusal(l: LifeView, m: MessageView, reason: Seq<char>, now: u64) -> (
    LifeView,
    DecisionView,
) {
    if MESSAGE_KEY_CONSUMED@.is_prefix_of(reason) {
        (l, DecisionView::Duplicate { message_id: m.message_id })
    } else if m.msg_number == 0 && !healing_queue::heal_throttled(l.healing, m.contact_id) {
        (
            LifeView {
                healing: healing_queue::heal_enqueue(
                    l.healing,
                    m.contact_id,
                    m.wire_payload,
                    HealDirection::Incoming,
                    now,
                ),
                ..l
            },
            DecisionView::SessionHealNeeded {
                contact_id: m.contact_id,
                role: role_of(l.client.local_user_id, m.contact_id),
                is_handshake: opens_session(m),
                reason,
                refused: refused_view(m),
            },
        )
    } else {
        (
            l,
            DecisionView::EndSessionNeeded {
                contact_id: m.contact_id,
                reason,
                refused: refused_view(m),
            },
        )
    }
}

/// The state after `m` was recorded as processed.
pub open spec fn life_marked(l: LifeView, m: MessageView, now: u64) -> LifeView {
    LifeView { ack: ack_store::ack_mark(l.ack, m.message_id, now).0, ..l }
}

/// What follows when `m` was decrypted to `d`, and the contribution in waiting applied by `pq`.
pub open spec fn accepted(m: MessageView, d: DecryptResultView, now: u64, l: LifeView, pq: Seq<
    ActionView,
>) -> DecisionView {
    DecisionView::Decrypted {
        contact_id: m.contact_id,
        message_id: m.message_id,
        plaintext: d.plaintext,
        content_type: m.content_type,
        actions: d.actions + ack_store::ack_mark(l.ack, m.message_id, now).1 + pq,
    }
}

/// The ratchet answers `m` with `d`: what follows.
pub open spec fn answered_may<E: CryptoEngine>(
    engine: &E,
    l: LifeView,
    m: MessageView,
    d: Result<DecryptResultView, Seq<char>>,
    now: u64,
    next: LifeView,
    decision: DecisionView,
) -> bool {
    match d {
        Err(e) => (next, decision) == refusal(l, m, e, now),
        Ok(p) => exists|pq: Seq<ActionView>|
            session_lifecycle::contribution_may(
                engine,
                life_marked(l, m, now),
                m.contact_id,
                next,
                pq,
            ) && decision
                == #[trigger] accepted(m, p, now, l, pq),
    }
}

/// The engine leaves the state `l` and answers `m` with `d`: what follows.
pub open spec fn tried_may<E: CryptoEngine>(
    engine: &E,
    l: LifeView,
    m: MessageView,
    tried: LifeView,
    d: Result<DecryptResultView, Seq<char>>,
    now: u64,
    next: LifeView,
    decision: DecisionView,
) -> bool {
    &&& session_lifecycle::decrypt_wire_may(engine, l, m.contact_id, m.wire_payload, tried, d)
    &&& answered_may(engine, tried, m, d, now, next, decision)
}

/// What a message not processed before may lead to.
pub open spec fn new_message_may<E: CryptoEngine>(
    engine: &E,
    r: RouterView,
    l: LifeView,
    m: MessageView,
    now: u64,
    r2: RouterView,
    l2: LifeView,
    decision: DecisionView,
) -> bool {
    if l.client.sessions.contains_key(m.contact_id) {
        r2 == r && exists|tried: LifeView, d: Result<DecryptResultView, Seq<char>>| #[trigger]
            tried_may(engine, l, m, tried, d, now, l2, decision)
    } else {
        l2 == l && (r2, decision) == enqueued(r, m)
    }
}

/// What a message may lead to.
pub open spec fn route_may<E: CryptoEngine>(
    engine: &E,
    r: RouterView,
    l: LifeView,
    m: MessageView,
    now: u64,
    r2: RouterView,
    l2: LifeView,
    decision: DecisionView,
) -> bool {
    if m.is_control {
        r2 == r && exists|x: Result<Seq<u8>, Seq<char>>| #[trigger]
            session_lifecycle::exported(engine, l, m.contact_id, x)
                && l2 == session_lifecycle::archived(l, m.contact_id, x, now).0
                && decision == (DecisionView::EndSessionReceived {
                contact_id: m.contact_id,
                actions: session_lifecycle::archived(l, m.contact_id, x, now).1,
            })
    } else {
        match ack_store::ack_check(l.ack, m.message_id) {
            AckCheckResult::InCache => r2 == r && l2 == l && decision == (DecisionView::Duplicate {
                message_id: m.message_id,
            }),
            AckCheckResult::NeedDbCheck => {
                &&& r2 == (RouterView { unchecked: r.unchecked.insert(m.message_id, m), ..r })
                &&& l2 == l
                &&& decision == (DecisionView::PendingAckCheck { message_id: m.message_id })
            },
            AckCheckResult::NotProcessed => new_message_may(engine, r, l, m, now, r2, l2, decision),
        }
    }
}

/// The text of the error for an answer nothing waits for.
pub open spec fn nothing_to_resume(id: Seq<char>) -> Seq<char> {
    "No message waits for an ACK check: "@ + id
}

/// What the answer of the durable store may lead to.
pub open spec fn resume_may<E: CryptoEngine>(
    engine: &E,
    r: RouterView,
    l: LifeView,
    id: Seq<char>,
    is_processed: bool,
    now: u64,
    r2: RouterView,
    l2: LifeView,
    decision: DecisionView,
) -> bool {
    let resumed = RouterView { unchecked: r.unchecked.remove(id), ..r };
    match str_map::lookup(r.unchecked, id) {
        None => r2 == r && l2 == l && decision == (DecisionView::Error {
            message: nothing_to_resume(id),
        }),
        Some(m) => if is_processed {
            r2 == resumed && l2 == l && decision == (DecisionView::Duplicate { message_id: id })
        } else {
            new_message_may(engine, resumed, l, m, now, r2, l2, decision)
        },
    }
}

/// What routing the messages `ms` one after the other may lead to.
pub open spec fn route_all_may<E: CryptoEngine>(
    engine: &E,
    r: RouterView,
    l: LifeView,
    ms: Seq<MessageView>,
    now: u64,
    r2: RouterView,
    l2: LifeView,
    decisions: Seq<DecisionView>,
) -> bool
    decreases ms.len(),
{
    if ms.len() == 0 {
        r2 == r && l2 == l && decisions.len() == 0
    } else {
        decisions.len() == ms.len() && exists|rm: RouterView, lm: LifeView|
            route_all_may(engine, r, l, ms.drop_last(), now, rm, lm, decisions.drop_last())
                && #[trigger] route_may(engine, rm, lm, ms.last(), now, r2, l2, decisions.last())
    }
}

/// What draining the queue of one device may lead to.
pub open spec fn drain_may<E: CryptoEngine>(
    engine: &E,
    r: RouterView,
    l: LifeView,
    contact: Seq<char>,
    now: u64,
    r2: RouterView,
    l2: LifeView,
    decisions: Seq<DecisionView>,
) -> bool {
    route_all_may(
        engine,
        with_queue(r, contact, Seq::empty()),
        l,
        waiting(r, contact),
        now,
        r2,
        l2,
        decisions,
    )
}

/// Decides what a message means, and keeps the messages that must wait.
pub struct MessageRouter {
    queues: StrMap<Vec<IncomingMessage>>,
    unchecked: StrMap<IncomingMessage>,
}

impl View for MessageRouter {
    type V = RouterView;

    closed spec fn view(&self) -> RouterView {
        RouterView { queues: self.queues@, unchecked: self.unchecked@ }
    }
}

fn clone_messages(v: &Vec<IncomingMessage>) -> (r: Vec<IncomingMessage>)
    ensures
        r.deep_view() == v.deep_view(),
{
    let mut out: Vec<IncomingMessage> = vecs::none();
    let ghost all = v.deep_view();
    let mut i: usize = 0;
    assert(all.take(0) =~= Seq::<MessageView>::empty());
    while i < v.len()
        invariant
            i <= v@.len(),
            all == v.deep_view(),
            out.deep_view() == all.take(i as int),
        decreases v@.len() - i,
    {
        assert(all.take(i + 1) =~= all.take(i as int).push(v@[i as int].deep_view()));
        vecs::push(&mut out, v[i].clone());
        i = i + 1;
    }
    assert(all.take(i as int) =~= all);
    out
}

fn holds_id(v: &Vec<IncomingMessage>, id: &str) -> (r: bool)
    ensures
        r == has_id(v.deep_view(), id@),
{
    let ghost q = v.deep_view();
    let mut i: usize = 0;
    while i < v.len()
        invariant
            i <= v@.len(),
            q == v.deep_view(),
            forall|j: int| 0 <= j < i ==> #[trigger] q[j].message_id != id@,
        decreases v@.len() - i,
    {
        assert(q[i as int] == v@[i as int].deep_view());
        if same_str(v[i].message_id.as_str(), id) {
            assert(q[i as int].message_id == id@);
            return true;
        }
        i = i + 1;
    }
    false
}

fn push_queued(v: &mut Vec<IncomingMessage>, m: IncomingMessage)
    ensures
        final(v).deep_view() == queued(old(v).deep_view(), m.deep_view()),
{
    if !holds_id(v, m.message_id.as_str()) {
        vecs::push(v, m);
    }
}

fn refused_of(m: &IncomingMessage) -> (r: Refused)
    ensures
        r.deep_view() == refused_view(m.deep_view()),
{
    Refused {
        message_id: m.message_id.clone(),
        opens_session: m.content_type == CT_SESSION_RESET_INIT,
        message: m.clone(),
    }
}

/// What follows when the ratchet refuses `m` for `reason`.
pub fn refuse<C: Clock, E: CryptoEngine>(
    lifecycle: &mut SessionLifecycleManager<C, E>,
    m: &IncomingMessage,
    reason: String,
    now: u64,
) -> (r: RoutingDecision)
    ensures
        (final(lifecycle)@, r.deep_view()) == refusal(
            old(lifecycle)@,
            m.deep_view(),
            reason@,
            now,
        ),
        final(lifecycle).client.engine == old(lifecycle).client.engine,
        final(lifecycle).same_clocks(*old(lifecycle)),
{
    if has_prefix(reason.as_str(), MESSAGE_KEY_CONSUMED) {
        return RoutingDecision::Duplicate { message_id: m.message_id.clone() };
    }
    if m.msg_number == 0 && !lifecycle.healing_queue.is_incoming_throttled(m.contact_id.as_str()) {
        let payload = vecs::bytes(m.wire_payload.as_slice());
        lifecycle.healing_queue.enqueue_at(
            m.contact_id.as_str(),
            payload,
            HealDirection::Incoming,
            now,
        );
        RoutingDecision::SessionHealNeeded {
            contact_id: m.contact_id.clone(),
            role: tie_break_role(lifecycle.client.local_user_id(), m.contact_id.as_str()),
            is_handshake: m.content_type == CT_SESSION_RESET_INIT,
            reason,
            refused: refused_of(m),
        }
    } else {
        RoutingDecision::EndSessionNeeded {
            contact_id: m.contact_id.clone(),
            reason,
            refused: refused_of(m),
        }
    }
}

/// What follows when the ratchet answers `m` with `result`.
pub fn answer<C: Clock, E: CryptoEngine>(
    lifecycle: &mut SessionLifecycleManager<C, E>,
    m: &IncomingMessage,
    result: Result<DecryptResult, String>,
    now: u64,
) -> (r: RoutingDecision)
    ensures
        answered_may(
            &old(lifecycle).client.engine,
            old(lifecycle)@,
            m.deep_view(),
            vecs::outcome(result),
            now,
            final(lifecycle)@,
            r.deep_view(),
        ),
        final(lifecycle).client.engine == old(lifecycle).client.engine,
        final(lifecycle).same_clocks(*old(lifecycle)),
{
    match result {
        Err(e) => refuse(lifecycle, m, e, now),
        Ok(d) => {
            let ghost l = lifecycle@;
            let ghost dv = d.deep_view();
            let mut actions = d.actions;
            let persisted = lifecycle.ack_store.mark_processed_at(m.message_id.as_str(), now);
            vecs::append(&mut actions, persisted);
            assert(lifecycle@ == life_marked(l, m.deep_view(), now));
            let pq = lifecycle.maybe_apply_pq_contribution(m.contact_id.as_str());
            let ghost pv = pq.deep_view();
            vecs::append(&mut actions, pq);
            let r = RoutingDecision::Decrypted {
                contact_id: m.contact_id.clone(),
                message_id: m.message_id.clone(),
                plaintext: d.plaintext,
                content_type: m.content_type,
                actions,
            };
            assert(r.deep_view() == accepted(m.deep_view(), dv, now, l, pv));
            r
        },
    }
}

impl MessageRouter {
    /// Nothing waits.
    pub fn new() -> (r: Self)
        ensures
            r@ == (RouterView { queues: Map::empty(), unchecked: Map::empty() }),
    {
        MessageRouter { queues: StrMap::new(), unchecked: StrMap::new() }
    }

    fn take_queue(&mut self, contact_id: &str) -> (r: Vec<IncomingMessage>)
        ensures
            r.deep_view() == waiting(old(self)@, contact_id@),
            final(self)@ == with_queue(old(self)@, contact_id@, Seq::empty()),
    {
        let taken = match self.queues.remove(contact_id) {
            Some(q) => q,
            None => vecs::none(),
        };
        taken
    }

    fn put_queue(&mut self, contact_id: &str, q: Vec<IncomingMessage>)
        requires
            !old(self)@.queues.contains_key(contact_id@),
        ensures
            final(self)@ == with_queue(old(self)@, contact_id@, q.deep_view()),
    {
        if q.len() > 0 {
            self.queues.insert(contact_id.to_owned(), q);
        }
        assert(self@ =~= with_queue(old(self)@, contact_id@, q.deep_view()));
    }

    /// How many messages of this device wait for a session.
    pub fn pending_count(&self, contact_id: &str) -> (r: usize)
        ensures
            r == waiting(self@, contact_id@).len(),
    {
        match self.queues.get(contact_id) {
            Some(q) => q.len(),
            None => 0,
        }
    }

    /// The messages of this device that wait for a session, in the order they arrived.
    pub fn pending_messages(&self, contact_id: &str) -> (r: Vec<IncomingMessage>)
        ensures
            r.deep_view() == waiting(self@, contact_id@),
    {
        match self.queues.get(contact_id) {
            Some(q) => clone_messages(q),
            None => vecs::none(),
        }
    }

    /// The devices with messages that wait for a session, each once.
    pub fn contacts_with_pending(&self) -> (r: Vec<String>)
        ensures
            str_map::names_keys(r.deep_view(), self@.queues),
    {
        self.queues.keys()
    }

    /// The payload of the first message of this device that waits, left where it is.
    pub fn peek_first_pending_wire_payload(&self, contact_id: &str) -> (r: Option<Vec<u8>>)
        ensures
            vecs::opt_bytes(r) == (if waiting(self@, contact_id@).len() > 0 {
                Some(waiting(self@, contact_id@)[0].wire_payload)
            } else {
                None
            }),
    {
        match self.queues.get(contact_id) {
            Some(q) => if q.len() > 0 {
                let payload = vecs::bytes(q[0].wire_payload.as_slice());
                assert(waiting(self@, contact_id@)[0] == q@[0].deep_view());
                Some(payload)
            } else {
                None
            },
            None => None,
        }
    }

    /// Drops the first message of this device that waits; its id.
    pub fn pop_first_pending(&mut self, contact_id: &str) -> (r: Option<String>)
        ensures
            ({
                let q = waiting(old(self)@, contact_id@);
                if q.len() > 0 {
                    r.deep_view() == Some(q[0].message_id) && final(self)@ == with_queue(
                        old(self)@,
                        contact_id@,
                        q.skip(1),
                    )
                } else {
                    r is None && final(self)@ == with_queue(
                        old(self)@,
                        contact_id@,
                        Seq::empty(),
                    )
                }
            }),
    {
        let ghost before = self@;
        let mut q = self.take_queue(contact_id);
        let ghost all = q.deep_view();
        if q.len() == 0 {
            return None;
        }
        let first = q.remove(0);
        assert(q.deep_view() =~= all.skip(1));
        assert(first.deep_view() == all[0]);
        self.put_queue(contact_id, q);
        assert(self@ =~= with_queue(before, contact_id@, all.skip(1)));
        Some(first.message_id)
    }

    /// Takes everything of this device that waits.
    pub fn take_pending(&mut self, contact_id: &str) -> (r: Vec<IncomingMessage>)
        ensures
            r.deep_view() == waiting(old(self)@, contact_id@),
            final(self)@ == with_queue(old(self)@, contact_id@, Seq::empty()),
    {
        self.take_queue(contact_id)
    }

    /// Drops one message of this device from what waits.
    pub fn remove_pending(&mut self, contact_id: &str, message_id: &str)
        ensures
            final(self)@ == with_queue(
                old(self)@,
                contact_id@,
                without_id(waiting(old(self)@, contact_id@), message_id@),
            ),
    {
        let ghost before = self@;
        let q = self.take_queue(contact_id);
        let ghost all = q.deep_view();
        let ghost keeps = |m: MessageView| m.message_id != message_id@;
        let mut kept: Vec<IncomingMessage> = vecs::none();
        let mut i: usize = 0;
        assert(all.take(0).filter(keeps) =~= Seq::<MessageView>::empty()) by {
            reveal(Seq::filter);
        }
        while i < q.len()
            invariant
                i <= q@.len(),
                all == q.deep_view(),
                keeps == (|m: MessageView| m.message_id != message_id@),
                kept.deep_view() == all.take(i as int).filter(keeps),
            decreases q@.len() - i,
        {
            assert(all.take(i + 1).drop_last() =~= all.take(i as int));
            assert(all.take(i + 1).last() == q@[i as int].deep_view());
            assert(all.take(i + 1).filter(keeps) == (if keeps(all[i as int]) {
                all.take(i as int).filter(keeps).push(all[i as int])
            } else {
                all.take(i as int).filter(keeps)
            })) by {
                reveal(Seq::filter);
            }
            if !same_str(q[i].message_id.as_str(), message_id) {
                vecs::push(&mut kept, q[i].clone());
            }
            i = i + 1;
        }
        assert(all.take(i as int) =~= all);
        self.put_queue(contact_id, kept);
        assert(self@ =~= with_queue(before, contact_id@, without_id(all, message_id@)));
    }

    /// Files everything that waits for `from` under `to`, behind what waits there.
    pub fn rekey_pending(&mut self, from: &str, to: &str)
        ensures
            final(self)@ == rekeyed(old(self)@, from@, to@),
    {
        if same_str(from, to) {
            return;
        }
        let ghost before = self@;
        let moved = self.take_queue(from);
        let mut q = self.take_queue(to);
        let ghost base = q.deep_view();
        let ghost more = moved.deep_view().map_values(|m: MessageView| readdressed(m, to@));
        assert(base == waiting(before, to@));
        let mut i: usize = 0;
        assert(more.take(0) =~= Seq::<MessageView>::empty());
        while i < moved.len()
            invariant
                i <= moved@.len(),
                more == moved.deep_view().map_values(|m: MessageView| readdressed(m, to@)),
                q.deep_view() == merged(base, more.take(i as int)),
            decreases moved@.len() - i,
        {
            assert(more.take(i + 1).drop_last() =~= more.take(i as int));
            assert(more.take(i + 1).last() == readdressed(moved@[i as int].deep_view(), to@));
            let mut m = moved[i].clone();
            m.contact_id = to.to_owned();
            push_queued(&mut q, m);
            i = i + 1;
        }
        assert(more.take(i as int) =~= more);
        self.put_queue(to, q);
        assert(self@ =~= rekeyed(before, from@, to@));
    }

    /// Keeps the message a heal starts from with everything else that waits for a session.
    pub fn hold_for_open(&mut self, message: IncomingMessage)
        ensures
            final(self)@ == held_for_open(old(self)@, message.deep_view()),
    {
        let ghost before = self@;
        let contact = message.contact_id.clone();
        let mut q = self.take_queue(contact.as_str());
        push_queued(&mut q, message);
        self.put_queue(contact.as_str(), q);
        assert(self@ =~= held_for_open(before, message.deep_view()));
    }

    /// Forgets everything of this device.
    pub fn forget_contact(&mut self, contact_id: &str)
        ensures
            final(self)@ == router_forgot(old(self)@, contact_id@),
    {
        let ghost before = self@;
        let _ = self.queues.remove(contact_id);
        let keys = self.unchecked.keys();
        let ghost all = keys.deep_view();
        let mut i: usize = 0;
        while i < keys.len()
            invariant
                i <= keys@.len(),
                all == keys.deep_view(),
                str_map::names_keys(all, before.unchecked),
                self@.queues == before.queues.remove(contact_id@),
                forall|k: Seq<char>| #[trigger]
                    self@.unchecked.contains_key(k) <==> before.unchecked.contains_key(k) && (
                    all.take(i as int).contains(k) ==> before.unchecked[k].contact_id
                        != contact_id@),
                forall|k: Seq<char>| #[trigger]
                    self@.unchecked.contains_key(k) ==> self@.unchecked[k] == before.unchecked[k],
            decreases keys@.len() - i,
        {
            assert(all[i as int] == keys@[i as int]@);
            assert(all.take(i + 1) =~= all.take(i as int).push(all[i as int]));
            assert forall|k: Seq<char>| #[trigger] all.take(i + 1).contains(k) <==> (all.take(
                i as int,
            ).contains(k) || k == all[i as int]) by {
                vecs::push_contains(all.take(i as int), all[i as int], k);
            }
            assert(all.contains(all[i as int]));
            let theirs = match self.unchecked.get(keys[i].as_str()) {
                Some(m) => same_str(m.contact_id.as_str(), contact_id),
                None => false,
            };
            assert(self@.unchecked.contains_key(all[i as int]) || theirs
                || all.take(i as int).contains(all[i as int]));
            if theirs {
                let _ = self.unchecked.remove(keys[i].as_str());
            }
            i = i + 1;
        }
        assert(all.take(i as int) =~= all);
        assert(self@.unchecked =~= router_forgot(before, contact_id@).unchecked);
        assert(self@ =~= router_forgot(before, contact_id@));
    }

    fn enqueue_or_reject(&mut self, m: &IncomingMessage) -> (r: RoutingDecision)
        ensures
            (final(self)@, r.deep_view()) == enqueued(old(self)@, m.deep_view()),
    {
        let ghost before = self@;
        let ghost mv = m.deep_view();
        let (full, known) = match self.queues.get(m.contact_id.as_str()) {
            Some(q) => {
                let known = holds_id(q, m.message_id.as_str());
                (!known && q.len() >= MAX_QUEUED_PER_CONTACT, known)
            },
            None => (false, false),
        };
        if full {
            return RoutingDecision::QueueFull { contact_id: m.contact_id.clone() };
        }
        let mut q = self.take_queue(m.contact_id.as_str());
        push_queued(&mut q, m.clone());
        let n = q.len();
        self.put_queue(m.contact_id.as_str(), q);
        assert(self@ =~= with_queue(
            before,
            mv.contact_id,
            queued(waiting(before, mv.contact_id), mv),
        ));
        RoutingDecision::NeedSessionInit { contact_id: m.contact_id.clone(), queued_count: n }
    }

    /// Routes a message known not to have been processed.
    fn route_new<C: Clock, E: CryptoEngine>(
        &mut self,
        lifecycle: &mut SessionLifecycleManager<C, E>,
        m: &IncomingMessage,
        now: u64,
    ) -> (r: RoutingDecision)
        ensures
            new_message_may(
                &old(lifecycle).client.engine,
                old(self)@,
                old(lifecycle)@,
                m.deep_view(),
                now,
                final(self)@,
                final(lifecycle)@,
                r.deep_view(),
            ),
            final(lifecycle).client.engine == old(lifecycle).client.engine,
            final(lifecycle).same_clocks(*old(lifecycle)),
    {
        if !lifecycle.has_active_session(m.contact_id.as_str()) {
            return self.enqueue_or_reject(m);
        }
        let ghost l = lifecycle@;
        let ghost e = lifecycle.client.engine;
        let result = lifecycle.decrypt_wire_payload(
            m.contact_id.as_str(),
            m.wire_payload.as_slice(),
        );
        let ghost tried = lifecycle@;
        let ghost d = vecs::outcome(result);
        let r = answer(lifecycle, m, result, now);
        assert(tried_may(
            &e,
            l,
            m.deep_view(),
            tried,
            d,
            now,
            lifecycle@,
            r.deep_view(),
        ));
        r
    }

    /// Routes a message that arrived at `now`.
    pub fn route_message_at<C: Clock, E: CryptoEngine>(
        &mut self,
        lifecycle: &mut SessionLifecycleManager<C, E>,
        m: &IncomingMessage,
        now: u64,
    ) -> (r: RoutingDecision)
        ensures
            route_may(
                &old(lifecycle).client.engine,
                old(self)@,
                old(lifecycle)@,
                m.deep_view(),
                now,
                final(self)@,
                final(lifecycle)@,
                r.deep_view(),
            ),
            final(lifecycle).client.engine == old(lifecycle).client.engine,
            final(lifecycle).same_clocks(*old(lifecycle)),
    {
        if m.is_control {
            let ghost l = lifecycle@;
            let ghost e = lifecycle.client.engine;
            let actions = lifecycle.archive_session_at(m.contact_id.as_str(), now);
            let ghost x = choose|x: Result<Seq<u8>, Seq<char>>| #[trigger]
                session_lifecycle::exported(
                    &e,
                    l,
                    m.contact_id@,
                    x,
                ) && (lifecycle@, actions.deep_view()) == session_lifecycle::archived(
                    l,
                    m.contact_id@,
                    x,
                    now,
                );
            assert(session_lifecycle::exported(&e, l, m.deep_view().contact_id, x));
            return RoutingDecision::EndSessionReceived {
                contact_id: m.contact_id.clone(),
                actions,
            };
        }
        match lifecycle.ack_store.is_processed(m.message_id.as_str()) {
            AckCheckResult::InCache => RoutingDecision::Duplicate {
                message_id: m.message_id.clone(),
            },
            AckCheckResult::NeedDbCheck => {
                self.unchecked.insert(m.message_id.clone(), m.clone());
                RoutingDecision::PendingAckCheck { message_id: m.message_id.clone() }
            },
            AckCheckResult::NotProcessed => self.route_new(lifecycle, m, now),
        }
    }

    /// Routes a message.
    pub fn route_message<C: Clock, E: CryptoEngine>(
        &mut self,
        lifecycle: &mut SessionLifecycleManager<C, E>,
        m: &IncomingMessage,
    ) -> (r: RoutingDecision)
        ensures
            exists|now: u64| #[trigger]
                old(lifecycle).reads(now) && route_may(
                    &old(lifecycle).client.engine,
                    old(self)@,
                    old(lifecycle)@,
                    m.deep_view(),
                    now,
                    final(self)@,
                    final(lifecycle)@,
                    r.deep_view(),
                ),
            final(lifecycle).client.engine == old(lifecycle).client.engine,
            final(lifecycle).same_clocks(*old(lifecycle)),
    {
        let now: u64 = lifecycle.clock.now_ms();
        assert(lifecycle.reads(now));
        self.route_message_at(lifecycle, m, now)
    }

    /// Goes on with a message once the durable store has said whether it was processed.
    pub fn resume_after_ack_check_at<C: Clock, E: CryptoEngine>(
        &mut self,
        message_id: &str,
        is_processed: bool,
        lifecycle: &mut SessionLifecycleManager<C, E>,
        now: u64,
    ) -> (r: RoutingDecision)
        ensures
            resume_may(
                &old(lifecycle).client.engine,
                old(self)@,
                old(lifecycle)@,
                message_id@,
                is_processed,
                now,
                final(self)@,
                final(lifecycle)@,
                r.deep_view(),
            ),
            final(lifecycle).client.engine == old(lifecycle).client.engine,
            final(lifecycle).same_clocks(*old(lifecycle)),
    {
        let ghost before = self@;
        match self.unchecked.remove(message_id) {
            None => {
                assert(self@ =~= before);
                RoutingDecision::Error {
                    message: join("No message waits for an ACK check: ", message_id),
                }
            },
            Some(m) => if is_processed {
                RoutingDecision::Duplicate { message_id: message_id.to_owned() }
            } else {
                self.route_new(lifecycle, &m, now)
            },
        }
    }

    /// Routes everything of this device that waits, in the order it arrived. What still has to
    /// wait is queued again.
    pub fn drain_pending_at<C: Clock, E: CryptoEngine>(
        &mut self,
        contact_id: &str,
        lifecycle: &mut SessionLifecycleManager<C, E>,
        now: u64,
    ) -> (r: Vec<RoutingDecision>)
        ensures
            drain_may(
                &old(lifecycle).client.engine,
                old(self)@,
                old(lifecycle)@,
                contact_id@,
                now,
                final(self)@,
                final(lifecycle)@,
                r.deep_view(),
            ),
            final(lifecycle).client.engine == old(lifecycle).client.engine,
            final(lifecycle).same_clocks(*old(lifecycle)),
    {
        let ghost l0 = lifecycle@;
        let ghost e = lifecycle.client.engine;
        let q = self.take_queue(contact_id);
        let ghost r0 = self@;
        let ghost all = q.deep_view();
        let mut out: Vec<RoutingDecision> = vecs::none();
        let mut i: usize = 0;
        assert(all.take(0) =~= Seq::<MessageView>::empty());
        while i < q.len()
            invariant
                i <= q@.len(),
                all == q.deep_view(),
                lifecycle.client.engine == e,
                lifecycle.same_clocks(*old(lifecycle)),
                route_all_may(
                    &e,
                    r0,
                    l0,
                    all.take(i as int),
                    now,
                    self@,
                    lifecycle@,
                    out.deep_view(),
                ),
                out.deep_view().len() == i,
            decreases q@.len() - i,
        {
            let ghost rm = self@;
            let ghost lm = lifecycle@;
            let ghost so_far = out.deep_view();
            let d = self.route_message_at(lifecycle, &q[i], now);
            vecs::push(&mut out, d);
            proof {
                let ms = all.take(i + 1);
                assert(ms.drop_last() =~= all.take(i as int));
                assert(ms.last() == q@[i as int].deep_view());
                assert(out.deep_view().drop_last() =~= so_far);
                assert(route_all_may(
                    &e,
                    r0,
                    l0,
                    ms.drop_last(),
                    now,
                    rm,
                    lm,
                    out.deep_view().drop_last(),
                ));
                assert(route_may(
                    &e,
                    rm,
                    lm,
                    ms.last(),
                    now,
                    self@,
                    lifecycle@,
                    out.deep_view().last(),
                ));
                assert(route_all_may(&e, r0, l0, ms, now, self@, lifecycle@, out.deep_view()));
            }
            i = i + 1;
        }
        assert(all.take(i as int) =~= all);
        out
    }
}

// ── Laws ────────────────────────────────────────────────────────────────────

/// No queue holds two copies of one message.
pub open spec fn each_once(r: RouterView) -> bool {
    forall|c: Seq<char>, i: int, j: int|
        #![trigger waiting(r, c)[i], waiting(r, c)[j]]
        0 <= i < j < waiting(r, c).len()
            ==> waiting(r, c)[i].message_id != waiting(r, c)[j].message_id
}

/// A message that must wait joins its queue at most once: what held of every queue before still
/// does, whoever redelivers it and however often.
pub proof fn a_redelivered_message_queues_once(r: RouterView, m: MessageView)
    requires
        each_once(r),
    ensures
        each_once(enqueued(r, m).0),
        each_once(held_for_open(r, m)),
        enqueued(enqueued(r, m).0, m).0 == enqueued(r, m).0,
{
    let q = waiting(r, m.contact_id);
    let q2 = queued(q, m);
    assert forall|i: int, j: int| 0 <= i < j < q2.len() implies #[trigger] q2[i].message_id
        != #[trigger] q2[j].message_id by {
        if !has_id(q, m.message_id) && j == q.len() {
            assert(q[i].message_id != m.message_id);
        }
    }
    let a = enqueued(r, m).0;
    let b = held_for_open(r, m);
    assert(has_id(q2, m.message_id)) by {
        if !has_id(q, m.message_id) {
            assert(q2[q.len() as int].message_id == m.message_id);
        }
    }
    assert forall|c: Seq<char>| #[trigger] waiting(b, c) == (if c == m.contact_id {
        q2
    } else {
        waiting(r, c)
    }) by {}
    assert forall|c: Seq<char>, i: int, j: int|
        #![trigger waiting(b, c)[i], waiting(b, c)[j]]
        0 <= i < j < waiting(b, c).len() implies waiting(b, c)[i].message_id != waiting(
        b,
        c,
    )[j].message_id by {
        if c != m.contact_id {
            assert(waiting(r, c)[i].message_id != waiting(r, c)[j].message_id);
        }
    }
    assert(a == r || a == b);
    assert(enqueued(a, m).0 =~= a);
}

/// A message that has no session to be tried on is kept or refused for a full queue, and never
/// dropped in silence.
pub proof fn a_message_without_a_session_waits(r: RouterView, m: MessageView)
    requires
        waiting(r, m.contact_id).len() < MAX_QUEUED_PER_CONTACT,
    ensures
        has_id(waiting(enqueued(r, m).0, m.contact_id), m.message_id),
        enqueued(r, m).1 is NeedSessionInit,
{
    let q = waiting(r, m.contact_id);
    if !has_id(q, m.message_id) {
        assert(queued(q, m)[q.len() as int].message_id == m.message_id);
    }
}

/// A message that was processed is a duplicate, whatever session is held.
pub proof fn a_processed_message_is_a_duplicate<E: CryptoEngine>(
    engine: &E,
    r: RouterView,
    l: LifeView,
    m: MessageView,
    now: u64,
    r2: RouterView,
    l2: LifeView,
    decision: DecisionView,
)
    requires
        !m.is_control,
        l.ack.processed.contains_key(m.message_id),
        route_may(engine, r, l, m, now, r2, l2, decision),
    ensures
        r2 == r,
        l2 == l,
        decision == (DecisionView::Duplicate { message_id: m.message_id }),
{
}

/// A message that was decrypted is recorded: routed again it is a duplicate, and the session is not
/// asked.
pub proof fn a_decrypted_message_is_read_once<E: CryptoEngine>(
    engine: &E,
    r: RouterView,
    l: LifeView,
    m: MessageView,
    now: u64,
    r2: RouterView,
    l2: LifeView,
    decision: DecisionView,
)
    requires
        !m.is_control,
        route_may(engine, r, l, m, now, r2, l2, decision),
        decision is Decrypted,
    ensures
        ack_store::ack_check(l2.ack, m.message_id) is InCache,
{
}

/// A key that was used up makes the message a copy: nothing heals, nothing is torn down, and
/// nothing changes.
pub proof fn a_consumed_key_is_a_duplicate(l: LifeView, m: MessageView, detail: Seq<char>, now: u64)
    ensures
        refusal(l, m, MESSAGE_KEY_CONSUMED@ + detail, now) == (
            l,
            DecisionView::Duplicate { message_id: m.message_id },
        ),
{
    assert(MESSAGE_KEY_CONSUMED@ =~= (MESSAGE_KEY_CONSUMED@ + detail).subrange(
        0,
        MESSAGE_KEY_CONSUMED@.len() as int,
    ));
}

/// A forgotten device has nothing left that waits, and no other device loses anything.
pub proof fn a_forgotten_device_has_nothing_waiting(
    r: RouterView,
    contact: Seq<char>,
    other: Seq<char>,
)
    ensures
        waiting(router_forgot(r, contact), contact).len() == 0,
        other != contact ==> waiting(router_forgot(r, contact), other) == waiting(r, other),
{
}

/// Two devices that rank each other take opposite roles, so that exactly one of them initiates.
pub proof fn opposite_roles(a: Seq<char>, b: Seq<char>)
    requires
        a != b,
    ensures
        role_of(a, b) is Initiator <==> role_of(b, a) is Responder,
{
    strings::lex_total(a, b);
    strings::lex_asymmetric(a, b);
}

/// Messages of one device, none of them a control frame.
pub open spec fn only_messages_of(q: Seq<MessageView>, contact: Seq<char>) -> bool {
    forall|i: int|
        0 <= i < q.len() ==> !(#[trigger] q[i]).is_control && q[i].contact_id == contact
}

/// Only messages wait: every queue holds messages of its own device, and no control frame waits
/// anywhere.
pub open spec fn only_messages_wait(r: RouterView) -> bool {
    &&& forall|k: Seq<char>| #[trigger]
        r.queues.contains_key(k) ==> only_messages_of(r.queues[k], k)
    &&& forall|k: Seq<char>| #[trigger] r.unchecked.contains_key(k) ==> !r.unchecked[k].is_control
}

/// The message a decision hands on as refused.
pub open spec fn refused_message(d: DecisionView) -> Option<RefusedView> {
    match d {
        DecisionView::SessionHealNeeded { contact_id, role, is_handshake, reason, refused } => Some(
            refused,
        ),
        DecisionView::EndSessionNeeded { contact_id, reason, refused } => Some(refused),
        _ => None,
    }
}

/// What a decision hands on as refused is a message, and no control frame.
pub open spec fn refuses_messages(d: DecisionView) -> bool {
    refused_message(d) matches Some(m) ==> !m.message.is_control && m.message_id
        == m.message.message_id
}

proof fn queued_messages_stay(q: Seq<MessageView>, m: MessageView, contact: Seq<char>)
    requires
        only_messages_of(q, contact),
        !m.is_control,
        m.contact_id == contact,
    ensures
        only_messages_of(queued(q, m), contact),
{
}

proof fn merged_messages_stay(q: Seq<MessageView>, more: Seq<MessageView>, contact: Seq<char>)
    requires
        only_messages_of(q, contact),
        only_messages_of(more, contact),
    ensures
        only_messages_of(merged(q, more), contact),
    decreases more.len(),
{
    if more.len() > 0 {
        assert(only_messages_of(more.drop_last(), contact));
        merged_messages_stay(q, more.drop_last(), contact);
        assert(!more[more.len() - 1].is_control);
        queued_messages_stay(merged(q, more.drop_last()), more.last(), contact);
    }
}

proof fn a_replaced_queue_keeps_only_messages(
    r: RouterView,
    contact: Seq<char>,
    q: Seq<MessageView>,
)
    requires
        only_messages_wait(r),
        only_messages_of(q, contact),
    ensures
        only_messages_wait(with_queue(r, contact, q)),
{
    let n = with_queue(r, contact, q);
    assert forall|k: Seq<char>| #[trigger] n.queues.contains_key(k) implies only_messages_of(
        n.queues[k],
        k,
    ) by {
        if k != contact {
            assert(r.queues.contains_key(k));
        }
    }
}

/// A control frame never waits: whatever is done to what waits, only messages do.
pub proof fn control_frames_never_wait(
    r: RouterView,
    m: MessageView,
    from: Seq<char>,
    to: Seq<char>,
    id: Seq<char>,
)
    requires
        only_messages_wait(r),
        !m.is_control,
    ensures
        only_messages_of(waiting(r, from), from),
        only_messages_wait(enqueued(r, m).0),
        only_messages_wait(held_for_open(r, m)),
        only_messages_wait(with_queue(r, from, Seq::empty())),
        only_messages_wait(with_queue(r, from, without_id(waiting(r, from), id))),
        only_messages_wait(rekeyed(r, from, to)),
        only_messages_wait(router_forgot(r, from)),
        only_messages_wait(RouterView { unchecked: r.unchecked.insert(m.message_id, m), ..r }),
        only_messages_wait(RouterView { unchecked: r.unchecked.remove(id), ..r }),
{
    let c = m.contact_id;
    assert(only_messages_of(waiting(r, c), c));
    queued_messages_stay(waiting(r, c), m, c);
    a_replaced_queue_keeps_only_messages(r, c, queued(waiting(r, c), m));
    assert(only_messages_of(waiting(r, from), from));
    assert(only_messages_of(waiting(r, to), to));
    a_replaced_queue_keeps_only_messages(r, from, Seq::empty());
    let p = |x: MessageView| x.message_id != id;
    let kept = waiting(r, from).filter(p);
    assert forall|i: int| 0 <= i < kept.len() implies !(#[trigger] kept[i]).is_control
        && kept[i].contact_id == from by {
        waiting(r, from).lemma_filter_contains_rev(p, kept[i]);
        let j = choose|j: int| 0 <= j < waiting(r, from).len() && waiting(r, from)[j] == kept[i];
        assert(!waiting(r, from)[j].is_control);
    }
    a_replaced_queue_keeps_only_messages(r, from, kept);
    if from != to {
        let more = waiting(r, from).map_values(|x: MessageView| readdressed(x, to));
        assert forall|i: int| 0 <= i < more.len() implies !(#[trigger] more[i]).is_control
            && more[i].contact_id == to by {
            assert(!waiting(r, from)[i].is_control);
        }
        merged_messages_stay(waiting(r, to), more, to);
        a_replaced_queue_keeps_only_messages(
            with_queue(r, from, Seq::empty()),
            to,
            merged(waiting(r, to), more),
        );
    }
    let f = router_forgot(r, from);
    assert forall|k: Seq<char>| #[trigger] f.queues.contains_key(k) implies only_messages_of(
        f.queues[k],
        k,
    ) by {
        assert(r.queues.contains_key(k));
    }
    let s = RouterView { unchecked: r.unchecked.insert(m.message_id, m), ..r };
    assert forall|k: Seq<char>| #[trigger] s.unchecked.contains_key(k) implies
        !s.unchecked[k].is_control by {
        if k != m.message_id {
            assert(r.unchecked.contains_key(k));
        }
    }
}

/// Routing puts no control frame among what waits, and hands none on as refused.
pub proof fn routing_keeps_only_messages<E: CryptoEngine>(
    engine: &E,
    r: RouterView,
    l: LifeView,
    m: MessageView,
    now: u64,
    r2: RouterView,
    l2: LifeView,
    decision: DecisionView,
)
    requires
        only_messages_wait(r),
        route_may(engine, r, l, m, now, r2, l2, decision),
    ensures
        only_messages_wait(r2),
        refuses_messages(decision),
{
    if !m.is_control {
        control_frames_never_wait(r, m, m.contact_id, m.contact_id, m.message_id);
        if ack_store::ack_check(l.ack, m.message_id) is NotProcessed {
            new_messages_are_refused_as_such(engine, r, l, m, now, r2, l2, decision);
        }
    }
}

proof fn new_messages_are_refused_as_such<E: CryptoEngine>(
    engine: &E,
    r: RouterView,
    l: LifeView,
    m: MessageView,
    now: u64,
    r2: RouterView,
    l2: LifeView,
    decision: DecisionView,
)
    requires
        new_message_may(engine, r, l, m, now, r2, l2, decision),
        !m.is_control,
    ensures
        refuses_messages(decision),
        refused_message(decision) matches Some(x) ==> x == refused_view(m),
{
}

/// The answer of the durable store puts no control frame among what waits either.
pub proof fn resuming_keeps_only_messages<E: CryptoEngine>(
    engine: &E,
    r: RouterView,
    l: LifeView,
    id: Seq<char>,
    is_processed: bool,
    now: u64,
    r2: RouterView,
    l2: LifeView,
    decision: DecisionView,
)
    requires
        only_messages_wait(r),
        resume_may(engine, r, l, id, is_processed, now, r2, l2, decision),
    ensures
        only_messages_wait(r2),
        refuses_messages(decision),
{
    if str_map::lookup(r.unchecked, id) is Some {
        let m = r.unchecked[id];
        assert(!m.is_control);
        let resumed = RouterView { unchecked: r.unchecked.remove(id), ..r };
        control_frames_never_wait(r, m, m.contact_id, m.contact_id, id);
        control_frames_never_wait(resumed, m, m.contact_id, m.contact_id, id);
        if !is_processed {
            new_messages_are_refused_as_such(engine, resumed, l, m, now, r2, l2, decision);
        }
    }
}

/// So does routing messages one after the other.
pub proof fn routing_all_keeps_only_messages<E: CryptoEngine>(
    engine: &E,
    r: RouterView,
    l: LifeView,
    ms: Seq<MessageView>,
    now: u64,
    r2: RouterView,
    l2: LifeView,
    ds: Seq<DecisionView>,
)
    requires
        only_messages_wait(r),
        route_all_may(engine, r, l, ms, now, r2, l2, ds),
    ensures
        only_messages_wait(r2),
        forall|i: int| 0 <= i < ds.len() ==> refuses_messages(#[trigger] ds[i]),
    decreases ms.len(),
{
    if ms.len() > 0 {
        let (rm, lm) = choose|rm: RouterView, lm: LifeView|
            route_all_may(engine, r, l, ms.drop_last(), now, rm, lm, ds.drop_last())
                && #[trigger] route_may(engine, rm, lm, ms.last(), now, r2, l2, ds.last());
        routing_all_keeps_only_messages(
            engine,
            r,
            l,
            ms.drop_last(),
            now,
            rm,
            lm,
            ds.drop_last(),
        );
        routing_keeps_only_messages(engine, rm, lm, ms.last(), now, r2, l2, ds.last());
        assert forall|i: int| 0 <= i < ds.len() implies refuses_messages(#[trigger] ds[i]) by {
            if i < ds.len() - 1 {
                assert(ds.drop_last()[i] == ds[i]);
            }
        }
    }
}

/// Routing a message takes no session away, and forgets nothing that was processed.
pub proof fn a_message_takes_no_session_away<E: CryptoEngine>(
    engine: &E,
    r: RouterView,
    l: LifeView,
    m: MessageView,
    now: u64,
    r2: RouterView,
    l2: LifeView,
    decision: DecisionView,
    contact: Seq<char>,
    id: Seq<char>,
)
    requires
        !m.is_control,
        route_may(engine, r, l, m, now, r2, l2, decision),
    ensures
        l.client.sessions.contains_key(contact) ==> l2.client.sessions.contains_key(contact),
        l.ack.processed.contains_key(id) ==> l2.ack.processed.contains_key(id),
        l.client.sessions.contains_key(m.contact_id) ==> r2.queues == r.queues,
        l.ack.processed.contains_key(id) ==> (refused_message(decision) matches Some(x)
            ==> x.message.message_id != id),
{
    if ack_store::ack_check(l.ack, m.message_id) is NotProcessed
        && l.client.sessions.contains_key(m.contact_id) {
        let (tried, d) = choose|tried: LifeView, d: Result<DecryptResultView, Seq<char>>| #[trigger]
            tried_may(engine, l, m, tried, d, now, l2, decision);
        assert(tried.client.sessions.dom() =~= l.client.sessions.dom());
        assert(tried.ack == l.ack);
        match d {
            Err(e) => {
                assert((l2, decision) == refusal(tried, m, e, now));
            },
            Ok(p) => {
                let pq = choose|pq: Seq<ActionView>|
                    session_lifecycle::contribution_may(
                        engine,
                        life_marked(tried, m, now),
                        m.contact_id,
                        l2,
                        pq,
                    ) && decision == #[trigger] accepted(m, p, now, tried, pq);
                assert(l2.ack == life_marked(tried, m, now).ack);
                assert(l2.client.sessions.dom() =~= tried.client.sessions.dom());
            },
        }
    }
}

/// Draining what waits for a session that is held keeps the session, leaves nothing in its queue
/// for want of one, and hands no message on as refused that was processed before.
pub proof fn a_drain_keeps_its_session<E: CryptoEngine>(
    engine: &E,
    r: RouterView,
    l: LifeView,
    ms: Seq<MessageView>,
    now: u64,
    r2: RouterView,
    l2: LifeView,
    ds: Seq<DecisionView>,
    contact: Seq<char>,
    id: Seq<char>,
)
    requires
        only_messages_of(ms, contact),
        l.client.sessions.contains_key(contact),
        l.ack.processed.contains_key(id),
        route_all_may(engine, r, l, ms, now, r2, l2, ds),
    ensures
        l2.client.sessions.contains_key(contact),
        l2.ack.processed.contains_key(id),
        r2.queues == r.queues,
        forall|i: int|
            0 <= i < ds.len() ==> (refused_message(#[trigger] ds[i]) matches Some(x)
                ==> x.message.message_id != id),
    decreases ms.len(),
{
    if ms.len() > 0 {
        let (rm, lm) = choose|rm: RouterView, lm: LifeView|
            route_all_may(engine, r, l, ms.drop_last(), now, rm, lm, ds.drop_last())
                && #[trigger] route_may(engine, rm, lm, ms.last(), now, r2, l2, ds.last());
        assert(only_messages_of(ms.drop_last(), contact));
        assert(!ms[ms.len() - 1].is_control);
        a_drain_keeps_its_session(
            engine,
            r,
            l,
            ms.drop_last(),
            now,
            rm,
            lm,
            ds.drop_last(),
            contact,
            id,
        );
        a_message_takes_no_session_away(
            engine,
            rm,
            lm,
            ms.last(),
            now,
            r2,
            l2,
            ds.last(),
            contact,
            id,
        );
        assert forall|i: int| 0 <= i < ds.len() implies (refused_message(
            #[trigger] ds[i],
        ) matches Some(x) ==> x.message.message_id != id) by {
            if i < ds.len() - 1 {
                assert(ds.drop_last()[i] == ds[i]);
            }
        }
    }
}

/// What waits for one device can be filed under another: nothing waits under the old id, what
/// waited under the new one still does and comes first, and every message that waited under the
/// old one waits under the new one, addressed to it. No other device is touched.
pub proof fn what_waits_can_be_readdressed(
    r: RouterView,
    from: Seq<char>,
    to: Seq<char>,
    other: Seq<char>,
    i: int,
)
    requires
        from != to,
        0 <= i < waiting(r, from).len(),
    ensures
        ({
            let next = rekeyed(r, from, to);
            &&& waiting(next, from).len() == 0
            &&& waiting(r, to).is_prefix_of(waiting(next, to))
            &&& has_id(waiting(next, to), waiting(r, from)[i].message_id)
            &&& other != from && other != to ==> waiting(next, other) == waiting(r, other)
            &&& next.unchecked == r.unchecked
        }),
{
    let more = waiting(r, from).map_values(|m: MessageView| readdressed(m, to));
    merging_keeps_the_front(waiting(r, to), more);
    merging_takes_everything(waiting(r, to), more, i);
    assert(more[i].message_id == waiting(r, from)[i].message_id);
}

proof fn merging_keeps_the_front(q: Seq<MessageView>, more: Seq<MessageView>)
    ensures
        q.is_prefix_of(merged(q, more)),
    decreases more.len(),
{
    if more.len() > 0 {
        merging_keeps_the_front(q, more.drop_last());
        let mid = merged(q, more.drop_last());
        let all = merged(q, more);
        assert(q =~= mid.subrange(0, q.len() as int));
        assert(q =~= all.subrange(0, q.len() as int));
    } else {
        assert(q =~= q.subrange(0, q.len() as int));
    }
}

proof fn merging_takes_everything(q: Seq<MessageView>, more: Seq<MessageView>, i: int)
    requires
        0 <= i < more.len(),
    ensures
        has_id(merged(q, more), more[i].message_id),
    decreases more.len(),
{
    let mid = merged(q, more.drop_last());
    let all = merged(q, more);
    let id = more[i].message_id;
    if i < more.len() - 1 {
        merging_takes_everything(q, more.drop_last(), i);
        assert(more.drop_last()[i] == more[i]);
        let k = choose|k: int| 0 <= k < mid.len() && #[trigger] mid[k].message_id == id;
        assert(all[k] == mid[k]);
    } else if !has_id(mid, id) {
        assert(all[mid.len() as int].message_id == id);
    }
}

/// A message that is taken out of a queue is gone from it, by its id; the others stay, in their
/// order; and forgetting a device leaves nothing of it waiting anywhere.
pub proof fn what_is_taken_out_is_gone(
    r: RouterView,
    q: Seq<MessageView>,
    id: Seq<char>,
    contact: Seq<char>,
    k: Seq<char>,
)
    ensures
        !has_id(without_id(q, id), id),
        forall|i: int|
            #![trigger q[i]]
            0 <= i < q.len() && q[i].message_id != id ==> without_id(q, id).contains(q[i]),
        forall|i: int|
            #![trigger without_id(q, id)[i]]
            0 <= i < without_id(q, id).len() ==> q.contains(without_id(q, id)[i]),
        waiting(router_forgot(r, contact), contact).len() == 0,
        k != contact ==> waiting(router_forgot(r, contact), k) == waiting(r, k),
        router_forgot(r, contact).unchecked.contains_key(k) <==> r.unchecked.contains_key(k)
            && r.unchecked[k].contact_id != contact,
        r.unchecked.contains_key(k) && r.unchecked[k].contact_id != contact ==> router_forgot(
            r,
            contact,
        ).unchecked[k] == r.unchecked[k],
{
    let f = |m: MessageView| m.message_id != id;
    q.filter_lemma(f);
    assert forall|i: int|
        #![trigger without_id(q, id)[i]]
        0 <= i < without_id(q, id).len() implies q.contains(without_id(q, id)[i]) by {
        q.lemma_filter_contains_rev(f, q.filter(f)[i]);
    }
    assert forall|i: int|
        0 <= i < without_id(q, id).len() implies #[trigger] without_id(q, id)[i].message_id
        != id by {
        assert(f(q.filter(f)[i]));
    }
    assert forall|i: int|
        #![trigger q[i]]
        0 <= i < q.len() && q[i].message_id != id implies without_id(q, id).contains(q[i]) by {
        assert(f(q[i]));
    }
}

/// Where all the ids differ, what is filed under another device waits behind what waits there, whole
/// and in its order, with nothing changed but the device.
pub proof fn what_is_readdressed_keeps_its_order(r: RouterView, from: Seq<char>, to: Seq<char>)
    requires
        from != to,
        forall|i: int, j: int|
            0 <= i < waiting(r, to).len() && 0 <= j < waiting(r, from).len() ==> (
            #[trigger] waiting(r, to)[i]).message_id != (#[trigger] waiting(
                r,
                from,
            )[j]).message_id,
        forall|i: int, j: int|
            0 <= i < j < waiting(r, from).len() ==> (#[trigger] waiting(r, from)[i]).message_id != (
            #[trigger] waiting(r, from)[j]).message_id,
    ensures
        waiting(rekeyed(r, from, to), to) == waiting(r, to) + waiting(r, from).map_values(
            |m: MessageView| MessageView { contact_id: to, ..m },
        ),
{
    let q = waiting(r, to);
    let old = waiting(r, from);
    let more = old.map_values(|m: MessageView| readdressed(m, to));
    assert(more =~= old.map_values(|m: MessageView| MessageView { contact_id: to, ..m }));
    assert forall|i: int, j: int| 0 <= i < q.len() && 0 <= j < more.len() implies (
    #[trigger] q[i]).message_id != (#[trigger] more[j]).message_id by {
        assert(waiting(r, to)[i].message_id != waiting(r, from)[j].message_id);
    }
    assert forall|i: int, j: int| 0 <= i < j < more.len() implies (#[trigger] more[i]).message_id
        != (#[trigger] more[j]).message_id by {
        assert(waiting(r, from)[i].message_id != waiting(r, from)[j].message_id);
    }
    merging_appends(q, more);
}

proof fn merging_appends(q: Seq<MessageView>, more: Seq<MessageView>)
    requires
        forall|i: int, j: int|
            0 <= i < q.len() && 0 <= j < more.len() ==> (#[trigger] q[i]).message_id != (
            #[trigger] more[j]).message_id,
        forall|i: int, j: int|
            0 <= i < j < more.len() ==> (#[trigger] more[i]).message_id != (
            #[trigger] more[j]).message_id,
    ensures
        merged(q, more) == q + more,
    decreases more.len(),
{
    if more.len() > 0 {
        let front = more.drop_last();
        merging_appends(q, front);
        let mid = q + front;
        if has_id(mid, more.last().message_id) {
            let i = choose|i: int|
                0 <= i < mid.len() && #[trigger] mid[i].message_id == more.last().message_id;
            if i < q.len() {
                assert(q[i].message_id != more[more.len() - 1].message_id);
            } else {
                assert(mid[i] == more[i - q.len()]);
                assert(more[i - q.len()].message_id != more[more.len() - 1].message_id);
            }
        }
        assert(mid.push(more.last()) =~= q + more);
    } else {
        assert(q + more =~= q);
    }
}

} // verus!
