//! What goes into a handshake and what comes of it: which keys are used, what the session is, what
//! is remembered, and what is used up.

use vstd::prelude::*;

use crate::crypto::engine::{self, CryptoEngine, OpenedView, ReceivedView};
use crate::crypto::handshake::{self, BundleView, EncapsulationView, PqxdhView};
use crate::crypto::keys::{KeysView, OtpkView};
use crate::crypto::kyber_prekey_auth::{PqAuthentication, PqHandshake};
use crate::crypto::kyber_prekeys::{self, KyberKeyView, KyberView};
use crate::crypto::messaging::double_ratchet::{HeaderView, RatchetMessageView, SessionView};
use crate::orchestration::actions::ActionView;
use crate::orchestration::healing_queue;
use crate::orchestration::message_router::{self, MessageView};
use crate::orchestration::orchestrator::decisions;
use crate::orchestration::orchestrator::messaging;
use crate::orchestration::orchestrator::opening::{self, KyberBundleView};
use crate::orchestration::orchestrator::receiving::{self, ReceivingView};
use crate::orchestration::orchestrator::responding::{self, FirstView, KeyBundleView};
use crate::orchestration::orchestrator::settling;
use crate::orchestration::orchestrator::OrchView;
use crate::orchestration::pq_prekey_plan::{self, BundleVerdicts, ChoiceView, PqxdhRefusal};
use crate::orchestration::receiving_init_plan::{self, ReceivingInitAttempt};
use crate::orchestration::session_lifecycle::{self, LifeView};
use crate::orchestration::session_machine::{self, Event};
use crate::orchestration::wire_message;
use crate::str_map;
use crate::vecs;
use crate::wire_payload;

verus! {

// ── Opening ─────────────────────────────────────────────────────────────────

/// A prekey of a bundle is offered when its public key is there and not empty, with the id it
/// comes with, or zero; everything else is offered as it comes.
pub proof fn a_bundle_is_offered_as_it_comes(bundle: BundleView, kyber: KyberBundleView)
    ensures
        ({
            let o = opening::offered(bundle, kyber);
            &&& o.verifying_key == bundle.verifying_key
            &&& o.hybrid_identity_key == kyber.hybrid_identity_key
            &&& o.hybrid_identity_signature == kyber.hybrid_identity_signature
            &&& o.signed_prekey is Some <==> (kyber.pre_key_public matches Some(p) && p.len() > 0)
            &&& o.signed_prekey matches Some(p) ==> {
                &&& p.key_id == (if kyber.pre_key_id is Some {
                    kyber.pre_key_id->Some_0
                } else {
                    0
                })
                &&& Some(p.public) == kyber.pre_key_public
                &&& p.created_at == kyber.pre_key_created_at
                &&& p.signature == kyber.pre_key_signature
                &&& p.hybrid_signature == kyber.pre_key_hybrid_signature
            }
            &&& o.one_time_prekey is Some <==> (kyber.one_time_prekey_public matches Some(p)
                && p.len() > 0)
            &&& o.one_time_prekey matches Some(p) ==> {
                &&& p.key_id == (if kyber.one_time_prekey_id is Some {
                    kyber.one_time_prekey_id->Some_0
                } else {
                    0
                })
                &&& Some(p.public) == kyber.one_time_prekey_public
                &&& p.created_at == kyber.one_time_prekey_created_at
                &&& p.signature == kyber.one_time_prekey_signature
                &&& p.hybrid_signature == kyber.one_time_prekey_hybrid_signature
            }
        }),
{
}

/// What an opening consisted of: the verdicts, the choice, the encapsulation and the session.
pub struct Opening {
    pub verdicts: BundleVerdicts,
    pub choice: ChoiceView,
    pub kem: EncapsulationView,
    pub opened: OpenedView,
}

/// The id of the one-time prekey of a bundle; zero for none.
pub open spec fn otpk_of(bundle: BundleView) -> u32 {
    if bundle.one_time_prekey_id is Some {
        bundle.one_time_prekey_id->Some_0
    } else {
        0
    }
}

/// An opening that succeeds: the bundle's signatures were verified and its prekey chosen at that
/// second and against the key pinned for the device; the secret was encapsulated to the chosen
/// key, and the engine opened the session with it, as this device, towards the contact.
pub open spec fn opens_by<E: CryptoEngine>(
    engine: &E,
    o: OrchView,
    contact: Seq<char>,
    bundle: BundleView,
    kyber: KyberBundleView,
    allow_stale: bool,
    now: u64,
    w: Opening,
) -> bool {
    let offer = opening::offered(bundle, kyber);
    &&& pq_prekey_plan::bundle_verified(engine, offer, w.verdicts)
    &&& pq_prekey_plan::pqxdh_plan(
        offer,
        now / 1000,
        str_map::lookup(o.life.pins, contact),
        w.verdicts,
    ) == Ok::<ChoiceView, PqxdhRefusal>(w.choice)
    &&& engine::said_encapsulate(engine, w.choice.kyber_public, Ok(w.kem))
    &&& engine::said_open_initiator(
        engine,
        o.life.client.keys,
        o.life.client.local_user_id,
        contact,
        bundle,
        otpk_of(bundle),
        allow_stale,
        Some(
            PqxdhView {
                shared_secret: w.kem.shared_secret,
                kyber_public: w.choice.kyber_public,
                kem_ciphertext: w.kem.ciphertext,
            },
        ),
        Ok(w.opened),
    )
}

/// What an opening leaves: the session the engine opened, post-quantum and authenticated, with the
/// ids and the ciphertext its first flight carries; the hybrid identity pinned for the device; and
/// everything else as it was.
pub open spec fn leaves_session(
    o: OrchView,
    contact: Seq<char>,
    bundle: BundleView,
    w: Opening,
    next: OrchView,
) -> bool {
    let session = SessionView {
        contact_id: contact,
        local_user_id: o.life.client.local_user_id,
        session_id: w.opened.session_id,
        suite_id: w.opened.suite_id,
        pq_handshake: PqHandshake::InitialV2,
        pq_authentication: PqAuthentication::Authenticated,
        prekey_header: Some(
            HeaderView {
                one_time_prekey_id: otpk_of(bundle),
                kyber_prekey_id: w.choice.kyber_prekey_id,
                kem_ciphertext: w.kem.ciphertext,
            },
        ),
        ratchet: w.opened.ratchet,
    };
    &&& next.life.client.sessions == o.life.client.sessions.insert(contact, session)
    &&& next.life.client.keys == o.life.client.keys
    &&& next.life.client.local_user_id == o.life.client.local_user_id
    &&& next.life.pins == o.life.pins.insert(contact, w.choice.hybrid_identity_fingerprint)
    &&& next == (OrchView {
        life: LifeView { client: next.life.client, pins: next.life.pins, ..o.life },
        ..o
    })
}

/// A session that was opened was opened by its bundle, and is the session the engine made of it.
/// It is opened only where none was held.
pub proof fn an_opened_session_follows_its_bundle<E: CryptoEngine>(
    engine: &E,
    o: OrchView,
    contact: Seq<char>,
    bundle: BundleView,
    kyber: KyberBundleView,
    allow_stale: bool,
    now: u64,
    next: OrchView,
    result: Result<Seq<char>, Seq<char>>,
) -> (w: Opening)
    requires
        opening::initiator_may(engine, o, contact, bundle, kyber, allow_stale, now, next, result),
        result is Ok,
    ensures
        result == Ok::<Seq<char>, Seq<char>>(contact),
        !o.life.client.sessions.contains_key(contact),
        opens_by(engine, o, contact, bundle, kyber, allow_stale, now, w),
        leaves_session(o, contact, bundle, w, next),
{
    let offer = opening::offered(bundle, kyber);
    let pinned = str_map::lookup(o.life.pins, contact);
    let v = choose|v: BundleVerdicts|
        #![trigger pq_prekey_plan::bundle_verified(engine, offer, v)]
        pq_prekey_plan::bundle_verified(engine, offer, v) && opening::planned_may(
            engine,
            o,
            contact,
            bundle,
            pq_prekey_plan::pqxdh_plan(offer, now / 1000, pinned, v),
            allow_stale,
            next,
            result,
        );
    let choice = pq_prekey_plan::pqxdh_plan(offer, now / 1000, pinned, v)->Ok_0;
    let (enc, opened) = choose|
        enc: Result<EncapsulationView, Seq<char>>,
        opened: Result<OpenedView, Seq<char>>,
    | #[trigger]
        opening::initiator_outcome(
            engine,
            o,
            contact,
            bundle,
            choice,
            allow_stale,
            enc,
            opened,
            next,
            result,
        );
    let w = Opening { verdicts: v, choice, kem: enc->Ok_0, opened: opened->Ok_0 };
    assert(leaves_session(o, contact, bundle, w, next)) by {
        let session = next.life.client.sessions[contact];
        assert(next.life.client.sessions =~= o.life.client.sessions.insert(contact, session));
    }
    w
}

/// An opening that nothing refuses succeeds: no session is held, whatever the signatures may come
/// to a prekey is chosen, and the engine encapsulates and opens.
#[verifier::rlimit(40)]
pub proof fn an_opening_nothing_refuses_succeeds<E: CryptoEngine>(
    engine: &E,
    o: OrchView,
    contact: Seq<char>,
    bundle: BundleView,
    kyber: KyberBundleView,
    allow_stale: bool,
    now: u64,
    next: OrchView,
    result: Result<Seq<char>, Seq<char>>,
)
    requires
        opening::initiator_may(engine, o, contact, bundle, kyber, allow_stale, now, next, result),
        !o.life.client.sessions.contains_key(contact),
        forall|v: BundleVerdicts| #[trigger]
            pq_prekey_plan::bundle_verified(engine, opening::offered(bundle, kyber), v)
                ==> pq_prekey_plan::pqxdh_plan(
                opening::offered(bundle, kyber),
                now / 1000,
                str_map::lookup(o.life.pins, contact),
                v,
            ) is Ok,
        forall|public: Seq<u8>, r: Result<EncapsulationView, Seq<char>>| #[trigger]
            engine::said_encapsulate(engine, public, r) ==> r is Ok,
        forall|keys: KeysView, x: Option<PqxdhView>, r: Result<OpenedView, Seq<char>>| #[trigger]
            engine::said_open_initiator(
                engine,
                keys,
                o.life.client.local_user_id,
                contact,
                bundle,
                otpk_of(bundle),
                allow_stale,
                x,
                r,
            ) ==> r is Ok,
    ensures
        result is Ok,
{
    let offer = opening::offered(bundle, kyber);
    let pinned = str_map::lookup(o.life.pins, contact);
    let v = choose|v: BundleVerdicts|
        #![trigger pq_prekey_plan::bundle_verified(engine, offer, v)]
        pq_prekey_plan::bundle_verified(engine, offer, v) && opening::planned_may(
            engine,
            o,
            contact,
            bundle,
            pq_prekey_plan::pqxdh_plan(offer, now / 1000, pinned, v),
            allow_stale,
            next,
            result,
        );
    let plan = pq_prekey_plan::pqxdh_plan(offer, now / 1000, pinned, v);
    assert(plan is Ok);
    let choice = plan->Ok_0;
    let (enc, opened) = choose|
        enc: Result<EncapsulationView, Seq<char>>,
        opened: Result<OpenedView, Seq<char>>,
    | #[trigger]
        opening::initiator_outcome(
            engine,
            o,
            contact,
            bundle,
            choice,
            allow_stale,
            enc,
            opened,
            next,
            result,
        );
    assert(engine::said_encapsulate(engine, choice.kyber_public, enc));
    assert(enc is Ok);
    let x = Some(opening::kem_input(choice, enc->Ok_0));
    assert(engine::said_open_initiator(
        engine,
        o.life.client.keys,
        o.life.client.local_user_id,
        contact,
        bundle,
        otpk_of(bundle),
        allow_stale,
        x,
        opened,
    ));
    assert(opened is Ok);
}

/// A reopen that succeeds replaces the session that was held by the one its bundle opened; one that
/// fails leaves every session as it was and ends the opening of the device.
pub proof fn a_reopened_session_follows_its_bundle<E: CryptoEngine>(
    engine: &E,
    o: OrchView,
    contact: Seq<char>,
    bundle: BundleView,
    kyber: KyberBundleView,
    allow_stale: bool,
    now: u64,
    next: OrchView,
    result: Result<Seq<char>, Seq<char>>,
) -> (w: Opening)
    requires
        opening::reopen_may(engine, o, contact, bundle, kyber, allow_stale, now, next, result),
    ensures
        result is Ok ==> {
            &&& result == Ok::<Seq<char>, Seq<char>>(contact)
            &&& opens_by(engine, o, contact, bundle, kyber, allow_stale, now, w)
            &&& leaves_session(o, contact, bundle, w, next)
        },
        result is Err ==> {
            &&& next.life == o.life
            &&& next.router == o.router
            &&& next.holds == o.holds
            &&& next.machine == session_machine::machine_step(
                o.machine,
                contact,
                now,
                Event::OpenFailed,
            ).0
        },
{
    let aside = opening::set_aside(o, contact);
    let tried = choose|tried: OrchView| #[trigger]
        opening::initiator_may(
            engine,
            aside,
            contact,
            bundle,
            kyber,
            allow_stale,
            now,
            tried,
            result,
        ) && next == opening::reopened(o, contact, tried, result, now);
    if result is Ok {
        let w = an_opened_session_follows_its_bundle(
            engine,
            aside,
            contact,
            bundle,
            kyber,
            allow_stale,
            now,
            tried,
            result,
        );
        assert(next.life.client.sessions =~= o.life.client.sessions.insert(
            contact,
            next.life.client.sessions[contact],
        ));
        w
    } else {
        opening::a_refused_opening_changes_nothing(
            engine,
            aside,
            contact,
            bundle,
            kyber,
            allow_stale,
            now,
            tried,
            result,
        );
        assert(next.life.client.sessions =~= o.life.client.sessions);
        arbitrary()
    }
}

// ── Answering an opening ────────────────────────────────────────────────────

/// What answering an opening consisted of: the message, the key it was encapsulated to, and what
/// the engine made of it.
pub struct Answer {
    pub message: RatchetMessageView,
    pub key: KyberKeyView,
    pub public: Seq<u8>,
    pub shared: Seq<u8>,
    pub received: ReceivedView,
}

/// The message a first message carries: its first twelve bytes of content are the nonce.
pub open spec fn is_carried(first: FirstView, m: RatchetMessageView) -> bool {
    &&& first.ephemeral_public_key.len() == 32
    &&& first.content.len() >= 12
    &&& m.dh_public_key == first.ephemeral_public_key
    &&& m.message_number == first.message_number
    &&& m.nonce == first.content.take(12)
    &&& m.ciphertext == first.content.skip(12)
    &&& m.previous_chain_length == 0
    &&& m.suite_id == first.suite_id
    &&& m.pq_message_epoch == first.pq_message_epoch
    &&& m.pq_ratchet_field == first.pq_ratchet_field
}

/// A first message that opens a session: the sender's signed prekey was verified, the secret was
/// decapsulated with the Kyber key the message names, and the engine opened the session with it,
/// as this device, towards the contact, with the one-time prekey the message names.
pub open spec fn answers_by<E: CryptoEngine>(
    engine: &E,
    o: OrchView,
    contact: Seq<char>,
    bundle: BundleView,
    first: FirstView,
    w: Answer,
) -> bool {
    &&& is_carried(first, w.message)
    &&& first.pqxdh_v2
    &&& first.kem_ciphertext.len() > 0
    &&& first.suite_id == 3
    &&& engine::said_verify(
        engine,
        bundle.verifying_key,
        handshake::prologue(bundle.suite_id.number()) + bundle.signed_prekey_public,
        bundle.signature,
        true,
    )
    &&& is_held(o.life.client.keys.kyber, w.key)
    &&& w.key.key_id == first.kyber_prekey_id
    &&& engine::said_kyber_public(engine, w.key.seed, Ok(w.public))
    &&& engine::said_decapsulate(engine, w.key.seed, first.kem_ciphertext, Ok(w.shared))
    &&& engine::said_open_responder(
        engine,
        o.life.client.keys,
        o.life.client.local_user_id,
        contact,
        bundle.identity_public,
        first.ephemeral_public_key,
        w.message,
        first.one_time_prekey_id,
        Some(
            PqxdhView {
                shared_secret: w.shared,
                kyber_public: w.public,
                kem_ciphertext: first.kem_ciphertext,
            },
        ),
        Ok(w.received),
    )
}

/// Whether a Kyber key can be answered with: the current one, a retired one or a one-time one.
pub open spec fn is_held(k: KyberView, key: KyberKeyView) -> bool {
    k.current == Some(key) || k.retired.contains(key) || k.otpks.contains(key)
}

proof fn the_first_with_an_id_is_one_of_them(keys: Seq<KyberKeyView>, id: u32)
    requires
        kyber_prekeys::first_with_id(keys, id) is Some,
    ensures
        keys.contains(kyber_prekeys::first_with_id(keys, id)->Some_0),
        kyber_prekeys::first_with_id(keys, id)->Some_0.key_id == id,
    decreases keys.len(),
{
    if keys[0].key_id != id {
        the_first_with_an_id_is_one_of_them(keys.drop_first(), id);
        let key = kyber_prekeys::first_with_id(keys, id)->Some_0;
        let i = choose|i: int| 0 <= i < keys.drop_first().len() && keys.drop_first()[i] == key;
        assert(keys[i + 1] == key);
    } else {
        assert(keys.contains(keys[0]));
    }
}

/// The session that answers an opening: what the engine made, marked as received with a
/// post-quantum secret.
pub open spec fn answering_session(
    o: OrchView,
    contact: Seq<char>,
    first: FirstView,
    w: Answer,
) -> SessionView {
    SessionView {
        contact_id: contact,
        local_user_id: o.life.client.local_user_id,
        session_id: w.received.session.session_id,
        suite_id: w.received.session.suite_id,
        pq_handshake: if first.kyber_prekey_id == 0 {
            PqHandshake::Classical
        } else {
            PqHandshake::InitialV2
        },
        pq_authentication: if first.kyber_prekey_id == 0 {
            PqAuthentication::Unauthenticated
        } else {
            PqAuthentication::Received
        },
        prekey_header: None,
        ratchet: w.received.session.ratchet,
    }
}

/// What answering an opening uses up and leaves: the one-time prekey the message names is gone, and
/// so is a one-time Kyber prekey; no other key is touched; and the session is held.
pub open spec fn leaves_answer(
    o: OrchView,
    contact: Seq<char>,
    first: FirstView,
    w: Answer,
    next: OrchView,
) -> bool {
    let before = o.life.client.keys;
    let after = next.life.client.keys;
    &&& next.life.client.sessions == o.life.client.sessions.insert(
        contact,
        answering_session(o, contact, first, w),
    )
    &&& next.life.client.local_user_id == o.life.client.local_user_id
    &&& after == (KeysView { otpks: after.otpks, kyber: after.kyber, ..before })
    &&& after.kyber == (KyberView { otpks: after.kyber.otpks, ..before.kyber })
    &&& forall|i: int|
        #![trigger after.otpks[i]]
        0 <= i < after.otpks.len() ==> before.otpks.contains(after.otpks[i])
            && after.otpks[i].key_id != first.one_time_prekey_id
    &&& forall|i: int|
        #![trigger before.otpks[i]]
        0 <= i < before.otpks.len() && before.otpks[i].key_id != first.one_time_prekey_id
            ==> after.otpks.contains(before.otpks[i])
    &&& first.kyber_prekey_id < 1_000_000 ==> after.kyber == before.kyber && next.kyber_dirty
        == o.kyber_dirty
    &&& first.kyber_prekey_id >= 1_000_000 ==> {
        &&& forall|i: int|
            #![trigger after.kyber.otpks[i]]
            0 <= i < after.kyber.otpks.len() ==> before.kyber.otpks.contains(after.kyber.otpks[i])
                && after.kyber.otpks[i].key_id != first.kyber_prekey_id
        &&& forall|i: int|
            #![trigger before.kyber.otpks[i]]
            0 <= i < before.kyber.otpks.len() && before.kyber.otpks[i].key_id
                != first.kyber_prekey_id ==> after.kyber.otpks.contains(before.kyber.otpks[i])
    }
    &&& next == (OrchView {
        life: LifeView { client: next.life.client, ..o.life },
        kyber_dirty: next.kyber_dirty,
        ..o
    })
}

/// A session that answers an opening was opened by the first message, and is the session the engine
/// made of it; the text is what the engine read.
pub proof fn an_answering_session_follows_its_message<E: CryptoEngine>(
    engine: &E,
    o: OrchView,
    contact: Seq<char>,
    bundle: BundleView,
    first: FirstView,
    next: OrchView,
    result: Result<Seq<u8>, Seq<char>>,
) -> (w: Answer)
    requires
        responding::received_may(engine, o, contact, bundle, first, next, result),
        result is Ok,
    ensures
        answers_by(engine, o, contact, bundle, first, w),
        result == Ok::<Seq<u8>, Seq<char>>(w.received.plaintext),
        leaves_answer(o, contact, first, w, next),
{
    let m = messaging::assembled(
        first.ephemeral_public_key,
        first.message_number,
        first.content,
        first.suite_id,
        first.pq_message_epoch,
        first.pq_ratchet_field,
    )->Ok_0;
    let kem = responding::kem_part(first);
    let (k, reply) = choose|
        k: Result<(Seq<u8>, Seq<u8>), Seq<char>>,
        reply: Result<ReceivedView, Seq<char>>,
    | #[trigger]
        responding::responder_outcome(
            engine,
            o,
            contact,
            bundle.identity_public,
            m.dh_public_key,
            m,
            first.one_time_prekey_id,
            kem,
            k,
            reply,
            next,
            result,
        );
    let kyber = o.life.client.keys.kyber;
    let key = kyber_prekeys::kyber_find(kyber, first.kyber_prekey_id)->Some_0;
    if kyber_prekeys::first_with_id(kyber.retired, first.kyber_prekey_id) is Some {
        the_first_with_an_id_is_one_of_them(kyber.retired, first.kyber_prekey_id);
    } else if kyber_prekeys::first_with_id(kyber.otpks, first.kyber_prekey_id) is Some {
        the_first_with_an_id_is_one_of_them(kyber.otpks, first.kyber_prekey_id);
    }
    let (public, shared) = choose|
        public: Result<Seq<u8>, Seq<char>>,
        shared: Result<Seq<u8>, Seq<char>>,
    | #[trigger]
        responding::kem_outcome(engine, key, first.kem_ciphertext, public, shared, k);
    let w = Answer {
        message: m,
        key,
        public: public->Ok_0,
        shared: shared->Ok_0,
        received: reply->Ok_0,
    };
    assert(next.life.client.sessions =~= o.life.client.sessions.insert(
        contact,
        answering_session(o, contact, first, w),
    ));
    let before = o.life.client.keys;
    let after = next.life.client.keys;
    let f = |x: OtpkView| x.key_id != first.one_time_prekey_id;
    assert(after.otpks == before.otpks.filter(f));
    before.otpks.filter_lemma(f);
    assert forall|i: int|
        #![trigger after.otpks[i]]
        0 <= i < after.otpks.len() implies before.otpks.contains(after.otpks[i])
        && after.otpks[i].key_id != first.one_time_prekey_id by {
        assert(f(before.otpks.filter(f)[i]));
        before.otpks.lemma_filter_contains_rev(f, after.otpks[i]);
    }
    if first.kyber_prekey_id >= 1_000_000 {
        let g = |x: KyberKeyView| x.key_id != first.kyber_prekey_id;
        assert(after.kyber.otpks == before.kyber.otpks.filter(g));
        before.kyber.otpks.filter_lemma(g);
        assert forall|i: int|
            #![trigger after.kyber.otpks[i]]
            0 <= i < after.kyber.otpks.len() implies before.kyber.otpks.contains(
            after.kyber.otpks[i],
        ) && after.kyber.otpks[i].key_id != first.kyber_prekey_id by {
            assert(g(before.kyber.otpks.filter(g)[i]));
            before.kyber.otpks.lemma_filter_contains_rev(g, after.kyber.otpks[i]);
        }
    }
    w
}

// ── Opening from what waits ─────────────────────────────────────────────────

/// A carrier is judged by what its payload says, and is a reset exactly when its type is fifteen;
/// one whose payload cannot be read opens nothing.
pub proof fn a_carrier_is_judged_by_its_payload(m: MessageView)
    ensures
        ({
            let c = receiving::carrier_of(m);
            match wire_payload::decode(m.wire_payload) {
                Ok(f) => {
                    &&& c.message_number == f.message_number
                    &&& c.one_time_prekey_id == f.one_time_prekey_id
                    &&& c.pq_message_epoch == f.pq_message_epoch
                    &&& c.is_session_reset_init == (m.content_type == 15)
                    &&& f.kem_ciphertext is None ==> c.kem_ciphertext_bytes == 0
                    &&& f.kem_ciphertext matches Some(k) ==> (k.len() <= 65_535
                        ==> c.kem_ciphertext_bytes == k.len())
                },
                Err(_) => receiving_init_plan::kind_of(c) is MidRatchet,
            }
        }),
{
}

/// What a session that opened from a waiting message consisted of.
pub struct OpenedFrom {
    pub carrier: int,
    pub bundle: int,
    pub device: Seq<char>,
    pub first: FirstView,
    pub left: OrchView,
    pub plaintext: Seq<u8>,
    pub written: Result<Seq<u8>, Seq<char>>,
    pub ready: OrchView,
    pub answer: Seq<ActionView>,
    pub settled: Seq<ActionView>,
}

/// The message `w.carrier` that waited opened a session with the bundle `w.bundle`: the device is
/// the one its identity key names, and the engine opened the session and read the text as it does
/// for any first message, with the session that was held set aside.
pub open spec fn opened_from<E: CryptoEngine>(
    engine: &E,
    o: OrchView,
    queued: Seq<MessageView>,
    bundles: Seq<BundleView>,
    w: OpenedFrom,
) -> bool {
    &&& 0 <= w.carrier < queued.len()
    &&& 0 <= w.bundle < bundles.len()
    &&& engine::said_derive_device_id(engine, bundles[w.bundle].identity_public, w.device)
    &&& session_lifecycle::exported(engine, o.life, w.device, w.written)
    &&& responding::first_message_of(queued[w.carrier].wire_payload) == Ok::<FirstView, Seq<char>>(
        w.first,
    )
    &&& responding::received_may(
        engine,
        opening::set_aside(o, w.device),
        w.device,
        bundles[w.bundle],
        w.first,
        w.left,
        Ok(w.plaintext),
    )
}

/// How the opener is answered: the session it replaces is archived and told, a sender that is not
/// the one claimed is told, the message is recorded as processed, and handed over last.
pub open spec fn opener_handed_over(
    claimed: Seq<char>,
    opener: MessageView,
    now: u64,
    w: OpenedFrom,
) -> bool {
    let told = (if w.written is Ok {
        seq![
            ActionView::SessionTerminated {
                contact_id: w.device,
                archive_bytes: w.written->Ok_0,
            },
        ]
    } else {
        Seq::empty()
    }) + (if claimed != w.device {
        seq![
            ActionView::NotifyError {
                code: "sender_device_mismatch"@,
                message: "certificate named "@ + claimed + ", the session opened with "@ + w.device,
            },
        ]
    } else {
        Seq::empty()
    }) + seq![ActionView::PersistAck { message_id: opener.message_id, timestamp: now / 1000 }];
    let text = decisions::lossy_text(w.plaintext);
    let shown = ActionView::NotifyNewMessage {
        chat_id: w.device,
        preview: if text.len() <= 50 {
            text
        } else {
            text.take(50)
        },
    };
    let handed = ActionView::MessageDecrypted {
        contact_id: w.device,
        message_id: opener.message_id,
        plaintext: w.plaintext,
    };
    if opener.content_type == 12 {
        w.answer == told.push(
            ActionView::CallSignalDecrypted {
                contact_id: w.device,
                message_id: opener.message_id,
                proto_bytes: w.plaintext,
            },
        )
    } else if opener.content_type == 13 || opener.content_type == 14 {
        w.answer == told.push(handed)
    } else {
        w.answer == told.push(shown).push(handed)
    }
}

/// A walk that opens a session opens it from a message that waited and a bundle that was given; the
/// opener is answered first, and then what waits for the session is settled, in the order it
/// arrived. Nothing is reported as tried or dropped.
pub proof fn a_walk_opens_from_what_waits<E: CryptoEngine>(
    engine: &E,
    o: OrchView,
    claimed: Seq<char>,
    queued: Seq<MessageView>,
    bundles: Seq<BundleView>,
    plan: Seq<ReceivingInitAttempt>,
    tried: Seq<Seq<char>>,
    last_error: Option<Seq<char>>,
    now: u64,
    next: OrchView,
    out: ReceivingView,
) -> (w: OpenedFrom)
    requires
        receiving::walk_may(
            engine,
            o,
            claimed,
            queued,
            bundles,
            plan,
            tried,
            last_error,
            now,
            next,
            out,
        ),
        out.opened_device is Some,
    ensures
        opened_from(engine, o, queued, bundles, w),
        plan.contains(
            ReceivingInitAttempt { carrier_index: w.carrier as u32, bundle_index: w.bundle as u32 },
        ),
        out.opened_device == Some(w.device),
        out.opener_message_id == Some(queued[w.carrier].message_id),
        out.actions == w.answer + w.settled,
        out.tried_message_ids.len() == 0,
        out.dropped_message_ids.len() == 0,
        out.last_error is None,
        opener_handed_over(claimed, queued[w.carrier], now, w),
        settling::settled_may(engine, w.ready, w.device, now, next, w.settled),
        w.ready.life.client == w.left.life.client,
        w.ready.life.ack.processed == w.left.life.ack.processed.insert(
            queued[w.carrier].message_id,
            now / 1000,
        ),
        w.written is Ok ==> w.ready.life.archives == w.left.life.archives.insert(
            w.device,
            w.written->Ok_0,
        ) && w.ready.life.archive_times == w.left.life.archive_times.insert(w.device, now / 1000),
        str_map::lookup(w.ready.machine.phases, w.device) is None,
        claimed == w.device ==> message_router::waiting(w.ready.router, claimed)
            == message_router::waiting(w.left.router, claimed).filter(
            |m: MessageView| m.message_id != queued[w.carrier].message_id,
        ),
        claimed != w.device ==> message_router::waiting(w.ready.router, claimed).len() == 0,
        claimed != w.device ==> {
            let waited = w.left.router;
            let id = queued[w.carrier].message_id;
            let rest = message_router::with_queue(
                waited,
                claimed,
                message_router::waiting(waited, claimed).filter(|m: MessageView| m.message_id != id),
            );
            &&& w.ready.router == message_router::rekeyed(rest, claimed, w.device)
            &&& str_map::lookup(w.ready.machine.phases, claimed) == session_machine::transition(
                str_map::lookup(w.left.machine.phases, claimed),
                now,
                Event::OpenFailed,
            ).0
        },
        w.ready.life.healing == healing_queue::heal_settle(w.left.life.healing, w.device),
        w.ready.holds == w.left.holds,
    decreases plan.len(),
{
    if plan.len() == 0 {
        arbitrary()
    } else if !receiving::can_try(queued, bundles, plan[0]) {
        let w = a_walk_opens_from_what_waits(
            engine,
            o,
            claimed,
            queued,
            bundles,
            plan.drop_first(),
            tried,
            last_error,
            now,
            next,
            out,
        );
        later_in_the_plan(plan, w);
        w
    } else {
        let carrier = queued[plan[0].carrier_index as int];
        let bundle = bundles[plan[0].bundle_index as int];
        let first = responding::first_message_of(carrier.wire_payload)->Ok_0;
        let (device, x, left, result) = choose|
            device: Seq<char>,
            x: Result<Seq<u8>, Seq<char>>,
            left: OrchView,
            result: Result<Seq<u8>, Seq<char>>,
        | #[trigger]
            receiving::attempt_outcome(engine, o, bundle, first, device, x, left, result)
                && match result {
                Ok(plaintext) => receiving::opened_may(
                    engine,
                    left,
                    claimed,
                    device,
                    carrier,
                    plaintext,
                    receiving::archivable(x),
                    now,
                    next,
                    out,
                ),
                Err(e) => receiving::walk_may(
                    engine,
                    o,
                    claimed,
                    queued,
                    bundles,
                    plan.drop_first(),
                    receiving::tried_with(tried, carrier.message_id),
                    Some(e),
                    now,
                    next,
                    out,
                ),
            };
        if result is Err {
            let w = a_walk_opens_from_what_waits(
                engine,
                o,
                claimed,
                queued,
                bundles,
                plan.drop_first(),
                receiving::tried_with(tried, carrier.message_id),
                Some(result->Err_0),
                now,
                next,
                out,
            );
            later_in_the_plan(plan, w);
            w
        } else {
            let plaintext = result->Ok_0;
            let replaced = receiving::archivable(x);
            let (ready, answer) = receiving::opener_answered(
                left,
                claimed,
                device,
                carrier,
                plaintext,
                replaced,
                now,
            );
            let settled = choose|settled: Seq<ActionView>| #[trigger]
                settling::settled_may(engine, ready, device, now, next, settled) && out == (
                ReceivingView {
                    opened_device: Some(device),
                    opener_message_id: Some(carrier.message_id),
                    actions: answer + settled,
                    tried_message_ids: Seq::empty(),
                    dropped_message_ids: Seq::empty(),
                    last_error: None,
                });
            let w = OpenedFrom {
                carrier: plan[0].carrier_index as int,
                bundle: plan[0].bundle_index as int,
                device,
                first,
                left,
                plaintext,
                written: x,
                ready,
                answer,
                settled,
            };
            assert(plan[0] == (ReceivingInitAttempt {
                carrier_index: w.carrier as u32,
                bundle_index: w.bundle as u32,
            }));
            an_opener_is_handed_over(left, claimed, carrier, now, w);
            w
        }
    }
}

proof fn later_in_the_plan(plan: Seq<ReceivingInitAttempt>, w: OpenedFrom)
    requires
        plan.len() > 0,
        plan.drop_first().contains(
            ReceivingInitAttempt { carrier_index: w.carrier as u32, bundle_index: w.bundle as u32 },
        ),
    ensures
        plan.contains(
            ReceivingInitAttempt { carrier_index: w.carrier as u32, bundle_index: w.bundle as u32 },
        ),
{
    let a = ReceivingInitAttempt { carrier_index: w.carrier as u32, bundle_index: w.bundle as u32 };
    let i = choose|i: int| 0 <= i < plan.drop_first().len() && plan.drop_first()[i] == a;
    assert(plan[i + 1] == a);
}

proof fn an_opener_is_handed_over(
    left: OrchView,
    claimed: Seq<char>,
    opener: MessageView,
    now: u64,
    w: OpenedFrom,
)
    requires
        (w.ready, w.answer) == receiving::opener_answered(
            left,
            claimed,
            w.device,
            opener,
            w.plaintext,
            receiving::archivable(w.written),
            now,
        ),
    ensures
        opener_handed_over(claimed, opener, now, w),
        w.ready.life.client == left.life.client,
        w.ready.life.ack.processed == left.life.ack.processed.insert(
            opener.message_id,
            now / 1000,
        ),
        w.written is Ok ==> w.ready.life.archives == left.life.archives.insert(
            w.device,
            w.written->Ok_0,
        ) && w.ready.life.archive_times == left.life.archive_times.insert(w.device, now / 1000),
        str_map::lookup(w.ready.machine.phases, w.device) is None,
        claimed == w.device ==> message_router::waiting(w.ready.router, claimed)
            == message_router::waiting(left.router, claimed).filter(
            |m: MessageView| m.message_id != opener.message_id,
        ),
        claimed != w.device ==> message_router::waiting(w.ready.router, claimed).len() == 0,
        claimed != w.device ==> {
            let waited = left.router;
            let id = opener.message_id;
            let rest = message_router::with_queue(
                waited,
                claimed,
                message_router::waiting(waited, claimed).filter(|m: MessageView| m.message_id != id),
            );
            &&& w.ready.router == message_router::rekeyed(rest, claimed, w.device)
            &&& str_map::lookup(w.ready.machine.phases, claimed) == session_machine::transition(
                str_map::lookup(left.machine.phases, claimed),
                now,
                Event::OpenFailed,
            ).0
        },
        w.ready.life.healing == healing_queue::heal_settle(left.life.healing, w.device),
        w.ready.holds == left.holds,
{
    let (o1, a1) = receiving::replaced_archived(
        left,
        w.device,
        receiving::archivable(w.written),
        now,
    );
    let (o2, a2) = receiving::claim_settled(o1, claimed, w.device, opener.message_id, now);
    let told = a1 + a2 + seq![
        ActionView::PersistAck { message_id: opener.message_id, timestamp: now / 1000 },
    ];
    let text = decisions::lossy_text(w.plaintext);
    let shown = ActionView::NotifyNewMessage {
        chat_id: w.device,
        preview: if text.len() <= 50 {
            text
        } else {
            text.take(50)
        },
    };
    let handed = ActionView::MessageDecrypted {
        contact_id: w.device,
        message_id: opener.message_id,
        plaintext: w.plaintext,
    };
    if opener.content_type == 12 {
        assert(w.answer =~= told.push(
            ActionView::CallSignalDecrypted {
                contact_id: w.device,
                message_id: opener.message_id,
                proto_bytes: w.plaintext,
            },
        ));
    } else if opener.content_type == 13 || opener.content_type == 14 {
        assert(w.answer =~= told.push(handed));
    } else {
        assert(w.answer =~= told.push(shown).push(handed));
    }
}

/// A session that opens for a device opens from a message that waited for it and can open one: the
/// opener is handed over first, and what waits then is settled behind it.
pub proof fn a_receiving_open_opens_from_a_handshake<E: CryptoEngine>(
    engine: &E,
    o: OrchView,
    claimed: Seq<char>,
    bundles: Seq<BundleView>,
    now: u64,
    next: OrchView,
    out: ReceivingView,
) -> (w: OpenedFrom)
    requires
        receiving::open_receiving_may(engine, o, claimed, bundles, now, next, out),
        out.opened_device is Some,
        message_router::waiting(o.router, claimed).len() <= u32::MAX,
        bundles.len() <= u32::MAX,
    ensures
        ({
            let queued = message_router::waiting(o.router, claimed);
            &&& opened_from(engine, o, queued, bundles, w)
            &&& receiving_init_plan::kind_of(receiving::carrier_of(queued[w.carrier])) is Handshake
            &&& out.opened_device == Some(w.device)
            &&& out.opener_message_id == Some(queued[w.carrier].message_id)
            &&& out.actions == w.answer + w.settled
            &&& opener_handed_over(claimed, queued[w.carrier], now, w)
            &&& settling::settled_may(engine, w.ready, w.device, now, next, w.settled)
        }),
{
    let queued = message_router::waiting(o.router, claimed);
    let plan = receiving::walk_plan(queued, bundles);
    let w = a_walk_opens_from_what_waits(
        engine,
        o,
        claimed,
        queued,
        bundles,
        plan,
        Seq::empty(),
        None,
        now,
        next,
        out,
    );
    let carriers = queued.map_values(|m: MessageView| receiving::carrier_of(m));
    receiving_init_plan::the_plan_is_carrier_major(carriers, bundles.len() as u32);
    let a = ReceivingInitAttempt { carrier_index: w.carrier as u32, bundle_index: w.bundle as u32 };
    let k = choose|k: int| 0 <= k < plan.len() && plan[k] == a;
    assert(receiving_init_plan::attempts(carriers, bundles.len() as u32)[k] == a);
    assert(carriers[w.carrier] == receiving::carrier_of(queued[w.carrier]));
    w
}

/// A walk that opens nothing answers nothing and drops what waited for the device: every message
/// that waited is named as tried or as dropped, those tried before among the tried; the opening is
/// over, and nothing else changes.
pub proof fn a_walk_that_opens_nothing_drops_what_waits<E: CryptoEngine>(
    engine: &E,
    o: OrchView,
    claimed: Seq<char>,
    queued: Seq<MessageView>,
    bundles: Seq<BundleView>,
    plan: Seq<ReceivingInitAttempt>,
    tried: Seq<Seq<char>>,
    last_error: Option<Seq<char>>,
    now: u64,
    next: OrchView,
    out: ReceivingView,
)
    requires
        receiving::walk_may(
            engine,
            o,
            claimed,
            queued,
            bundles,
            plan,
            tried,
            last_error,
            now,
            next,
            out,
        ),
        out.opened_device is None,
    ensures
        out.opener_message_id is None,
        out.actions.len() == 0,
        message_router::waiting(next.router, claimed).len() == 0,
        next.router.queues.remove(claimed) == o.router.queues.remove(claimed),
        next.router.unchecked == o.router.unchecked,
        next.life == o.life,
        next.holds == o.holds,
        next.machine == session_machine::machine_step(
            o.machine,
            claimed,
            now,
            Event::OpenFailed,
        ).0,
        forall|id: Seq<char>| #[trigger] tried.contains(id) ==> out.tried_message_ids.contains(id),
        forall|i: int|
            #![trigger message_router::waiting(o.router, claimed)[i]]
            0 <= i < message_router::waiting(o.router, claimed).len()
                ==> out.tried_message_ids.contains(
                message_router::waiting(o.router, claimed)[i].message_id,
            ) || out.dropped_message_ids.contains(
                message_router::waiting(o.router, claimed)[i].message_id,
            ),
    decreases plan.len(),
{
    if plan.len() == 0 {
        let q = message_router::waiting(o.router, claimed);
        assert forall|i: int| #![trigger q[i]] 0 <= i < q.len() implies tried.contains(
            q[i].message_id,
        ) || receiving::untried(q, tried).contains(q[i].message_id) by {
            receiving::nothing_that_waited_is_lost_in_silence(q, tried, i);
        }
        assert(next.router.queues.remove(claimed) =~= o.router.queues.remove(claimed));
    } else if !receiving::can_try(queued, bundles, plan[0]) {
        a_walk_that_opens_nothing_drops_what_waits(
            engine,
            o,
            claimed,
            queued,
            bundles,
            plan.drop_first(),
            tried,
            last_error,
            now,
            next,
            out,
        );
    } else {
        let carrier = queued[plan[0].carrier_index as int];
        let bundle = bundles[plan[0].bundle_index as int];
        let first = responding::first_message_of(carrier.wire_payload)->Ok_0;
        let (device, x, left, result) = choose|
            device: Seq<char>,
            x: Result<Seq<u8>, Seq<char>>,
            left: OrchView,
            result: Result<Seq<u8>, Seq<char>>,
        | #[trigger]
            receiving::attempt_outcome(engine, o, bundle, first, device, x, left, result)
                && match result {
                Ok(plaintext) => receiving::opened_may(
                    engine,
                    left,
                    claimed,
                    device,
                    carrier,
                    plaintext,
                    receiving::archivable(x),
                    now,
                    next,
                    out,
                ),
                Err(e) => receiving::walk_may(
                    engine,
                    o,
                    claimed,
                    queued,
                    bundles,
                    plan.drop_first(),
                    receiving::tried_with(tried, carrier.message_id),
                    Some(e),
                    now,
                    next,
                    out,
                ),
            };
        let more = receiving::tried_with(tried, carrier.message_id);
        a_walk_that_opens_nothing_drops_what_waits(
            engine,
            o,
            claimed,
            queued,
            bundles,
            plan.drop_first(),
            more,
            Some(result->Err_0),
            now,
            next,
            out,
        );
        assert forall|id: Seq<char>| #[trigger] tried.contains(id) implies
            out.tried_message_ids.contains(id) by {
            vecs::push_contains(tried, carrier.message_id, id);
            assert(more.contains(id));
        }
    }
}

/// A session that answers an opening taken from a payload follows that payload in the same way: the
/// message, the prekeys and the ciphertext are those the payload carries.
pub proof fn an_answering_session_follows_its_payload<E: CryptoEngine>(
    engine: &E,
    o: OrchView,
    contact: Seq<char>,
    bundle: KeyBundleView,
    payload: Seq<u8>,
    next: OrchView,
    result: Result<Seq<u8>, Seq<char>>,
) -> (w: Answer)
    requires
        responding::wire_received_may(engine, o, contact, bundle, payload, next, result),
        result is Ok,
    ensures
        ({
            let f = wire_payload::decode(payload)->Ok_0;
            &&& wire_payload::decode(payload) is Ok
            &&& f.kem_ciphertext is Some
            &&& f.suite_id == 3
            &&& 1 <= bundle.suite_id <= 3
            &&& f.sealed_box.len() >= 12
            &&& w.message.nonce + w.message.ciphertext == f.sealed_box
            &&& w.message.dh_public_key == f.dh_public_key
            &&& w.message.message_number == f.message_number
            &&& w.message.suite_id == f.suite_id
            &&& engine::said_verify(
                engine,
                bundle.verifying_key,
                handshake::prologue(bundle.suite_id) + bundle.signed_prekey_public,
                bundle.signature,
                true,
            )
            &&& is_held(o.life.client.keys.kyber, w.key)
            &&& w.key.key_id == f.kyber_otpk_id
            &&& engine::said_kyber_public(engine, w.key.seed, Ok(w.public))
            &&& engine::said_decapsulate(
                engine,
                w.key.seed,
                f.kem_ciphertext->Some_0,
                Ok(w.shared),
            )
            &&& engine::said_open_responder(
                engine,
                o.life.client.keys,
                o.life.client.local_user_id,
                contact,
                bundle.identity_public,
                f.dh_public_key,
                w.message,
                f.one_time_prekey_id,
                Some(
                    PqxdhView {
                        shared_secret: w.shared,
                        kyber_public: w.public,
                        kem_ciphertext: f.kem_ciphertext->Some_0,
                    },
                ),
                Ok(w.received),
            )
            &&& result == Ok::<Seq<u8>, Seq<char>>(w.received.plaintext)
            &&& next.life.client.sessions == o.life.client.sessions.insert(
                contact,
                answering_session(o, contact, responding::first_of(f), w),
            )
        }),
{
    let (f, m) = responding::opener_of(payload)->Ok_0;
    wire_message::a_box_is_a_nonce_and_a_ciphertext(f);
    let kem = responding::kem_part(responding::first_of(f));
    let (k, reply) = choose|
        k: Result<(Seq<u8>, Seq<u8>), Seq<char>>,
        reply: Result<ReceivedView, Seq<char>>,
    | #[trigger]
        responding::responder_outcome(
            engine,
            o,
            contact,
            bundle.identity_public,
            m.dh_public_key,
            m,
            f.one_time_prekey_id,
            kem,
            k,
            reply,
            next,
            result,
        );
    let kyber = o.life.client.keys.kyber;
    let key = kyber_prekeys::kyber_find(kyber, f.kyber_otpk_id)->Some_0;
    if kyber_prekeys::first_with_id(kyber.retired, f.kyber_otpk_id) is Some {
        the_first_with_an_id_is_one_of_them(kyber.retired, f.kyber_otpk_id);
    } else if kyber_prekeys::first_with_id(kyber.otpks, f.kyber_otpk_id) is Some {
        the_first_with_an_id_is_one_of_them(kyber.otpks, f.kyber_otpk_id);
    }
    let (public, shared) = choose|
        public: Result<Seq<u8>, Seq<char>>,
        shared: Result<Seq<u8>, Seq<char>>,
    | #[trigger]
        responding::kem_outcome(engine, key, kem.kem_ciphertext, public, shared, k);
    let w = Answer {
        message: m,
        key,
        public: public->Ok_0,
        shared: shared->Ok_0,
        received: reply->Ok_0,
    };
    assert(next.life.client.sessions =~= o.life.client.sessions.insert(
        contact,
        answering_session(o, contact, responding::first_of(f), w),
    ));
    w
}

/// Whether this attempt, when it is made, opens a session whatever the engine says.
pub open spec fn sure_to_open<E: CryptoEngine>(
    engine: &E,
    o: OrchView,
    queued: Seq<MessageView>,
    bundles: Seq<BundleView>,
    a: ReceivingInitAttempt,
) -> bool {
    &&& receiving::can_try(queued, bundles, a)
    &&& forall|
        device: Seq<char>,
        x: Result<Seq<u8>, Seq<char>>,
        left: OrchView,
        result: Result<Seq<u8>, Seq<char>>,
    | #[trigger]
        receiving::attempt_outcome(
            engine,
            o,
            bundles[a.bundle_index as int],
            responding::first_message_of(queued[a.carrier_index as int].wire_payload)->Ok_0,
            device,
            x,
            left,
            result,
        ) ==> result is Ok
}

/// A walk opens a session if any attempt of its plan is sure to, and it goes by the plan: it never
/// gets past the first attempt that is sure to open.
pub proof fn a_walk_opens_if_it_can<E: CryptoEngine>(
    engine: &E,
    o: OrchView,
    claimed: Seq<char>,
    queued: Seq<MessageView>,
    bundles: Seq<BundleView>,
    plan: Seq<ReceivingInitAttempt>,
    tried: Seq<Seq<char>>,
    last_error: Option<Seq<char>>,
    now: u64,
    next: OrchView,
    out: ReceivingView,
    k: int,
)
    requires
        receiving::walk_may(
            engine,
            o,
            claimed,
            queued,
            bundles,
            plan,
            tried,
            last_error,
            now,
            next,
            out,
        ),
        0 <= k < plan.len(),
        sure_to_open(engine, o, queued, bundles, plan[k]),
    ensures
        out.opened_device is Some,
        exists|i: int|
            0 <= i <= k && receiving::can_try(queued, bundles, #[trigger] plan[i])
                && out.opener_message_id == Some(
                queued[plan[i].carrier_index as int].message_id,
            ),
    decreases plan.len(),
{
    let rest = plan.drop_first();
    if k > 0 {
        assert(rest[k - 1] == plan[k]);
    }
    if !receiving::can_try(queued, bundles, plan[0]) {
        a_walk_opens_if_it_can(
            engine,
            o,
            claimed,
            queued,
            bundles,
            rest,
            tried,
            last_error,
            now,
            next,
            out,
            k - 1,
        );
        let i = choose|i: int|
            0 <= i <= k - 1 && receiving::can_try(queued, bundles, #[trigger] rest[i])
                && out.opener_message_id == Some(
                queued[rest[i].carrier_index as int].message_id,
            );
        assert(plan[i + 1] == rest[i]);
    } else {
        let carrier = queued[plan[0].carrier_index as int];
        let bundle = bundles[plan[0].bundle_index as int];
        let first = responding::first_message_of(carrier.wire_payload)->Ok_0;
        let (device, x, left, result) = choose|
            device: Seq<char>,
            x: Result<Seq<u8>, Seq<char>>,
            left: OrchView,
            result: Result<Seq<u8>, Seq<char>>,
        | #[trigger]
            receiving::attempt_outcome(engine, o, bundle, first, device, x, left, result)
                && match result {
                Ok(plaintext) => receiving::opened_may(
                    engine,
                    left,
                    claimed,
                    device,
                    carrier,
                    plaintext,
                    receiving::archivable(x),
                    now,
                    next,
                    out,
                ),
                Err(e) => receiving::walk_may(
                    engine,
                    o,
                    claimed,
                    queued,
                    bundles,
                    rest,
                    receiving::tried_with(tried, carrier.message_id),
                    Some(e),
                    now,
                    next,
                    out,
                ),
            };
        if result is Err {
            assert(k > 0);
            a_walk_opens_if_it_can(
                engine,
                o,
                claimed,
                queued,
                bundles,
                rest,
                receiving::tried_with(tried, carrier.message_id),
                Some(result->Err_0),
                now,
                next,
                out,
                k - 1,
            );
            let i = choose|i: int|
                0 <= i <= k - 1 && receiving::can_try(queued, bundles, #[trigger] rest[i])
                    && out.opener_message_id == Some(
                    queued[rest[i].carrier_index as int].message_id,
                );
            assert(plan[i + 1] == rest[i]);
        } else {
            assert(receiving::can_try(queued, bundles, plan[0]));
        }
    }
}

/// The name by which a refusal is told.
pub open spec fn told_as(e: PqxdhRefusal) -> Seq<char> {
    match e {
        PqxdhRefusal::NoKyberPrekey => "NoKyberPrekey"@,
        PqxdhRefusal::KyberPrekeyMalformed => "KyberPrekeyMalformed"@,
        PqxdhRefusal::KyberSignatureMissing => "KyberSignatureMissing"@,
        PqxdhRefusal::KyberSignatureInvalid => "KyberSignatureInvalid"@,
        PqxdhRefusal::KyberPrekeyStale => "KyberPrekeyStale"@,
        PqxdhRefusal::HybridIdentityMissing => "HybridIdentityMissing"@,
        PqxdhRefusal::HybridIdentityBindingInvalid => "HybridIdentityBindingInvalid"@,
        PqxdhRefusal::HybridIdentityChanged => "HybridIdentityChanged"@,
        PqxdhRefusal::HybridSignatureMissing => "HybridSignatureMissing"@,
        PqxdhRefusal::HybridSignatureInvalid => "HybridSignatureInvalid"@,
    }
}

/// A bundle that is refused whatever its signatures come to opens nothing and changes nothing, and
/// the refusal is told by its name, with the device.
pub proof fn a_refused_bundle_is_told_by_name<E: CryptoEngine>(
    engine: &E,
    o: OrchView,
    contact: Seq<char>,
    bundle: BundleView,
    kyber: KyberBundleView,
    allow_stale: bool,
    now: u64,
    next: OrchView,
    result: Result<Seq<char>, Seq<char>>,
    e: PqxdhRefusal,
)
    requires
        opening::initiator_may(engine, o, contact, bundle, kyber, allow_stale, now, next, result),
        forall|v: BundleVerdicts| #[trigger]
            pq_prekey_plan::bundle_verified(engine, opening::offered(bundle, kyber), v)
                ==> pq_prekey_plan::pqxdh_plan(
                opening::offered(bundle, kyber),
                now / 1000,
                str_map::lookup(o.life.pins, contact),
                v,
            ) == Err::<ChoiceView, PqxdhRefusal>(e),
    ensures
        next == o,
        result == Err::<Seq<char>, Seq<char>>(
            "PQ_REQUIRED: "@ + told_as(e) + " — no session opened to device "@ + contact,
        ),
{
    let offer = opening::offered(bundle, kyber);
    let pinned = str_map::lookup(o.life.pins, contact);
    let v = choose|v: BundleVerdicts|
        #![trigger pq_prekey_plan::bundle_verified(engine, offer, v)]
        pq_prekey_plan::bundle_verified(engine, offer, v) && opening::planned_may(
            engine,
            o,
            contact,
            bundle,
            pq_prekey_plan::pqxdh_plan(offer, now / 1000, pinned, v),
            allow_stale,
            next,
            result,
        );
}

/// An engine that finds every signature good, opens every ciphertext and reads every first message.
pub open spec fn answers_everything<E: CryptoEngine>(engine: &E) -> bool {
    &&& forall|key: Seq<u8>, m: Seq<u8>, sig: Seq<u8>, ok: bool| #[trigger]
        engine::said_verify(engine, key, m, sig, ok) ==> ok
    &&& forall|seed: Seq<u8>, r: Result<Seq<u8>, Seq<char>>| #[trigger]
        engine::said_kyber_public(engine, seed, r) ==> r is Ok
    &&& forall|seed: Seq<u8>, ct: Seq<u8>, r: Result<Seq<u8>, Seq<char>>| #[trigger]
        engine::said_decapsulate(engine, seed, ct, r) ==> r is Ok
    &&& forall|
        keys: KeysView,
        local: Seq<char>,
        contact: Seq<char>,
        identity: Seq<u8>,
        ephemeral: Seq<u8>,
        m: RatchetMessageView,
        id: u32,
        x: Option<PqxdhView>,
        r: Result<ReceivedView, Seq<char>>,
    | #[trigger]
        engine::said_open_responder(
            engine,
            keys,
            local,
            contact,
            identity,
            ephemeral,
            m,
            id,
            x,
            r,
        ) ==> r is Ok
}

/// With such an engine a first message is answered whenever it is whole, of suite 3, with a
/// ciphertext, and to a Kyber key that is held; whether a session was held before does not matter.
pub proof fn a_whole_first_message_is_answered<E: CryptoEngine>(
    engine: &E,
    o: OrchView,
    contact: Seq<char>,
    bundle: BundleView,
    first: FirstView,
    next: OrchView,
    result: Result<Seq<u8>, Seq<char>>,
)
    requires
        answers_everything(engine),
        responding::received_may(engine, o, contact, bundle, first, next, result),
        first.ephemeral_public_key.len() == 32,
        first.content.len() >= 12,
        first.pqxdh_v2,
        first.kem_ciphertext.len() > 0,
        first.suite_id == 3,
        kyber_prekeys::kyber_find(o.life.client.keys.kyber, first.kyber_prekey_id) is Some,
    ensures
        result is Ok,
{
    let m = messaging::assembled(
        first.ephemeral_public_key,
        first.message_number,
        first.content,
        first.suite_id,
        first.pq_message_epoch,
        first.pq_ratchet_field,
    )->Ok_0;
    let kem = responding::kem_part(first);
    let ok = choose|ok: bool| #[trigger]
        responding::verified_may(
            engine,
            o,
            contact,
            responding::key_part(bundle),
            m,
            first.one_time_prekey_id,
            kem,
            ok,
            next,
            result,
        );
    assert(ok);
    let (k, reply) = choose|
        k: Result<(Seq<u8>, Seq<u8>), Seq<char>>,
        reply: Result<ReceivedView, Seq<char>>,
    | #[trigger]
        responding::responder_outcome(
            engine,
            o,
            contact,
            bundle.identity_public,
            m.dh_public_key,
            m,
            first.one_time_prekey_id,
            kem,
            k,
            reply,
            next,
            result,
        );
    let key = kyber_prekeys::kyber_find(
        o.life.client.keys.kyber,
        first.kyber_prekey_id,
    )->Some_0;
    let (public, shared) = choose|
        public: Result<Seq<u8>, Seq<char>>,
        shared: Result<Seq<u8>, Seq<char>>,
    | #[trigger]
        responding::kem_outcome(engine, key, first.kem_ciphertext, public, shared, k);
    assert(public is Ok && shared is Ok);
    assert(k is Ok);
    assert(reply is Ok);
}

/// What is named as dropped is exactly what waited and was not tried.
pub proof fn what_is_dropped_waited_untried(
    q: Seq<MessageView>,
    tried: Seq<Seq<char>>,
    id: Seq<char>,
)
    ensures
        receiving::untried(q, tried).contains(id) <==> message_router::has_id(q, id)
            && !tried.contains(id),
    decreases q.len(),
{
    if q.len() > 0 {
        let front = q.drop_last();
        let before = receiving::untried(front, tried);
        let last = q.last().message_id;
        what_is_dropped_waited_untried(front, tried, id);
        vecs::push_contains(before, last, id);
        if message_router::has_id(q, id) {
            let i = choose|i: int| 0 <= i < q.len() && #[trigger] q[i].message_id == id;
            if i < front.len() {
                assert(front[i].message_id == id);
            }
        }
        if message_router::has_id(front, id) {
            let i = choose|i: int| 0 <= i < front.len() && #[trigger] front[i].message_id == id;
            assert(q[i].message_id == id);
        }
        if last == id {
            assert(q[q.len() - 1].message_id == id);
        }
    }
}

} // verus!
