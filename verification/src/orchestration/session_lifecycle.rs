//! The life of sessions: encrypt and decrypt, archive and restore, persist.
//!
//! All I/O is delegated through the actions that are returned; what is here is pure state.

use std::sync::Arc;

use vstd::prelude::*;

use crate::crypto::client_api::{self, ClassicClient, ClientView};
use crate::crypto::engine::{
    self, CryptoEngine, DecryptedView, EncryptedView, UnreadableSession, UnreadableView,
};
use crate::crypto::kyber_prekey_auth::PqHandshake;
use crate::crypto::messaging::double_ratchet::{
    self, EncryptedRatchetMessage, RatchetMessageView, Session, SessionView,
};
use crate::orchestration::ack_store::{self, AckStore, AckView};
use crate::orchestration::actions::{Action, ActionView, SecureStoreSlot, SlotView};
use crate::orchestration::clock::{self, to_secs, Clock};
use crate::orchestration::healing_queue::{self, HealRec, HealView, HealingQueue};
use crate::orchestration::pq_contribution::{self, DeferredView, PQContributionManager};
use crate::orchestration::state::{self, OrchestratorState, StateView};
use crate::orchestration::wire_message::{self, to_ratchet_message, MessageFault, WireMessage};
use crate::str_map::{self, StrMap};
use crate::strings::{join, join3};
use crate::utils::time::SystemClock;
use crate::vecs;
use crate::wire_payload::{self, unpack};

verus! {

/// Archives older than this are dropped (seconds).
pub const ARCHIVE_GC_AGE_SECONDS: u64 = 86_400;

/// How long an ACK record is kept (seconds).
pub const ACK_TTL_SECONDS: u64 = 2_592_000;

/// The heal attempt that is refused.
pub const HEAL_MAX_ATTEMPTS: u32 = 3;

/// How long a heal record is kept (seconds).
pub const HEAL_TTL_SECONDS: u64 = 86_400;

/// Returned by `encrypt`.
#[derive(Debug)]
pub struct EncryptResult {
    /// The encrypted message, ready to be written out.
    pub message: WireMessage,
    /// Actions the platform must execute (save the updated session state).
    pub actions: Vec<Action>,
}

/// Returned by `decrypt`.
#[derive(Debug)]
pub struct DecryptResult {
    pub plaintext: Vec<u8>,
    /// Actions the platform must execute after successful decryption.
    pub actions: Vec<Action>,
}

/// An `EncryptResult` by what its fields hold.
pub struct EncryptResultView {
    pub message: RatchetMessageView,
    pub actions: Seq<ActionView>,
}

impl DeepView for EncryptResult {
    type V = EncryptResultView;

    open spec fn deep_view(&self) -> EncryptResultView {
        EncryptResultView {
            message: self.message.deep_view(),
            actions: self.actions.deep_view(),
        }
    }
}

/// A `DecryptResult` by what its fields hold.
pub struct DecryptResultView {
    pub plaintext: Seq<u8>,
    pub actions: Seq<ActionView>,
}

impl DeepView for DecryptResult {
    type V = DecryptResultView;

    open spec fn deep_view(&self) -> DecryptResultView {
        DecryptResultView { plaintext: self.plaintext@, actions: self.actions.deep_view() }
    }
}

/// The contents of a `SessionLifecycleManager`.
#[verifier::ext_equal]
pub struct LifeView {
    pub client: ClientView,
    pub ack: AckView,
    pub healing: HealView,
    pub deferred: Map<Seq<char>, DeferredView>,
    /// The latest archive of each device.
    pub archives: Map<Seq<char>, Seq<u8>>,
    /// When each archive was made (unix seconds).
    pub archive_times: Map<Seq<char>, u64>,
    /// The one-time prekey last seen of each device.
    pub prekeys: Map<Seq<char>, u32>,
    /// The fingerprint of the hybrid identity pinned for each device.
    pub pins: Map<Seq<char>, Seq<u8>>,
    pub my_user_id: Seq<char>,
}

/// The action that saves a session.
pub open spec fn save_session(contact: Seq<char>, data: Seq<u8>) -> ActionView {
    ActionView::SaveToSecureStore { slot: SlotView::Session { contact_id: contact }, data }
}

/// The text of the error for a session that is not there.
pub open spec fn no_active_session(contact: Seq<char>) -> Seq<char> {
    "No active session for "@ + contact
}

/// What exporting a session may give: the engine's record of it, or that there is none.
pub open spec fn exported<E: CryptoEngine>(
    engine: &E,
    l: LifeView,
    contact: Seq<char>,
    reply: Result<Seq<u8>, Seq<char>>,
) -> bool {
    match str_map::lookup(l.client.sessions, contact) {
        None => reply == Err::<Seq<u8>, Seq<char>>("Session not found: "@ + contact),
        Some(s) => engine::said_encode_session(engine, s, reply),
    }
}

/// The answer to a message that was decrypted: the plaintext, and the save of the session.
pub open spec fn decrypt_answer(
    contact: Seq<char>,
    plaintext: Seq<u8>,
    export: Result<Seq<u8>, Seq<char>>,
) -> Result<DecryptResultView, Seq<char>> {
    match export {
        Err(e) => Err(e),
        Ok(data) => Ok(
            DecryptResultView { plaintext, actions: seq![save_session(contact, data)] },
        ),
    }
}

/// What decrypting `m` on the session held with `contact` may do.
pub open spec fn decrypt_may<E: CryptoEngine>(
    engine: &E,
    l: LifeView,
    contact: Seq<char>,
    m: RatchetMessageView,
    next: LifeView,
    result: Result<DecryptResultView, Seq<char>>,
) -> bool {
    match str_map::lookup(l.client.sessions, contact) {
        None => next == l && result == Err::<DecryptResultView, Seq<char>>(
            no_active_session(contact),
        ),
        Some(s) => exists|d: Result<DecryptedView, Seq<char>>, x: Result<Seq<u8>, Seq<char>>| #[trigger]
            decrypt_outcome(engine, l, contact, s, m, d, x, next, result),
    }
}

/// The engine decrypts to `d` and exports to `x`: what follows.
pub open spec fn decrypt_outcome<E: CryptoEngine>(
    engine: &E,
    l: LifeView,
    contact: Seq<char>,
    s: SessionView,
    m: RatchetMessageView,
    d: Result<DecryptedView, Seq<char>>,
    x: Result<Seq<u8>, Seq<char>>,
    next: LifeView,
    result: Result<DecryptResultView, Seq<char>>,
) -> bool {
    let (client, plain) = client_api::decrypt_step(l.client, contact, d);
    &&& engine::said_decrypt(engine, s, m, d)
    &&& next == (LifeView { client, ..l })
    &&& match plain {
        Err(e) => result == Err::<DecryptResultView, Seq<char>>(e),
        Ok(p) => exported(engine, next, contact, x) && result == decrypt_answer(contact, p, x),
    }
}

/// Why a payload cannot be tried on a session; the message it carries when it can.
pub open spec fn wire_message_of(payload: Seq<u8>) -> Result<RatchetMessageView, Seq<char>> {
    match wire_payload::decode(payload) {
        Err(e) => Err(e.text()),
        Ok(f) => match wire_message::message_fault(f) {
            Some(MessageFault::ShortBox) => Err("sealed_box too short (< 12 bytes)"@),
            Some(MessageFault::KeyLength) => Err("dh_public_key must be 32 bytes"@),
            None => Ok(wire_message::carried_message(f)),
        },
    }
}

/// What decrypting a wire payload may do.
pub open spec fn decrypt_wire_may<E: CryptoEngine>(
    engine: &E,
    l: LifeView,
    contact: Seq<char>,
    payload: Seq<u8>,
    next: LifeView,
    result: Result<DecryptResultView, Seq<char>>,
) -> bool {
    match wire_message_of(payload) {
        Err(e) => next == l && result == Err::<DecryptResultView, Seq<char>>(e),
        Ok(m) => decrypt_may(engine, l, contact, m, next, result),
    }
}

/// The engine encrypts to `c` and exports to `x`: what follows.
pub open spec fn encrypt_outcome<E: CryptoEngine>(
    engine: &E,
    l: LifeView,
    contact: Seq<char>,
    s: SessionView,
    plaintext: Seq<u8>,
    c: Result<EncryptedView, Seq<char>>,
    x: Result<Seq<u8>, Seq<char>>,
    next: LifeView,
    result: Result<EncryptResultView, Seq<char>>,
) -> bool {
    let (client, sealed) = client_api::encrypt_step(l.client, contact, c);
    &&& engine::said_encrypt(engine, s, plaintext, c)
    &&& next == (LifeView { client, ..l })
    &&& match sealed {
        Err(e) => result == Err::<EncryptResultView, Seq<char>>(e),
        Ok(m) => exported(engine, next, contact, x) && result == (match x {
            Err(e) => Err::<EncryptResultView, Seq<char>>(e),
            Ok(data) => Ok(
                EncryptResultView { message: m, actions: seq![save_session(contact, data)] },
            ),
        }),
    }
}

/// What encrypting for `contact` may do.
pub open spec fn encrypt_may<E: CryptoEngine>(
    engine: &E,
    l: LifeView,
    contact: Seq<char>,
    plaintext: Seq<u8>,
    next: LifeView,
    result: Result<EncryptResultView, Seq<char>>,
) -> bool {
    match str_map::lookup(l.client.sessions, contact) {
        None => next == l && result == Err::<EncryptResultView, Seq<char>>(
            no_active_session(contact) + ": call restore_latest_archive first"@,
        ),
        Some(s) => exists|c: Result<EncryptedView, Seq<char>>, x: Result<Seq<u8>, Seq<char>>| #[trigger]
            encrypt_outcome(engine, l, contact, s, plaintext, c, x, next, result),
    }
}

/// The state after a session of `device` was archived as `data`.
pub open spec fn archive_recorded(
    l: LifeView,
    device: Seq<char>,
    data: Seq<u8>,
    now: u64,
) -> LifeView {
    LifeView {
        archives: l.archives.insert(device, data),
        archive_times: l.archive_times.insert(device, clock::secs(now)),
        ..l
    }
}

/// The state with `data` as the archive of `contact`.
pub open spec fn archive_kept(l: LifeView, contact: Seq<char>, data: Seq<u8>) -> LifeView {
    LifeView { archives: l.archives.insert(contact, data), ..l }
}

/// Archiving the session of `contact`, when its export gave `x`. A session that cannot be exported
/// is not archived.
pub open spec fn archived(
    l: LifeView,
    contact: Seq<char>,
    x: Result<Seq<u8>, Seq<char>>,
    now: u64,
) -> (LifeView, Seq<ActionView>) {
    match x {
        Err(_) => (l, Seq::empty()),
        Ok(data) => {
            let kept = archive_recorded(l, contact, data, now);
            (
                LifeView {
                    client: ClientView {
                        sessions: l.client.sessions.remove(contact),
                        ..l.client
                    },
                    ..kept
                },
                seq![ActionView::SessionTerminated { contact_id: contact, archive_bytes: data }],
            )
        },
    }
}

/// Loading a record that decodes to `d` as the session of `contact`.
pub open spec fn imported(
    l: LifeView,
    contact: Seq<char>,
    d: Result<SessionView, Seq<char>>,
) -> (LifeView, Result<(), Seq<char>>) {
    match d {
        Err(e) => (l, Err(e)),
        Ok(s) => match double_ratchet::identity_mismatch(s, contact, l.client.local_user_id) {
            Some(m) => (l, Err(m)),
            None => (LifeView { client: client_api::with_session(
                l.client,
                contact,
                s,
            ), ..l }, Ok(())),
        },
    }
}

/// What a binary record that is read to `d` holds. Any other form is refused.
pub open spec fn binary_record(d: Result<SessionView, UnreadableView>) -> Result<
    SessionView,
    Seq<char>,
> {
    match d {
        Ok(s) => Ok(s),
        Err(UnreadableView::Legacy(e)) => Err(e),
        Err(UnreadableView::Undecodable(e)) => Err(e),
        Err(UnreadableView::Malformed(e)) => Err("from_cfe_v1: "@ + e),
    }
}

/// What bytes that are read to `d` as a binary record, and to `legacy` as text, hold. The text form
/// counts only where the decoder says that this is what the bytes are.
pub open spec fn any_record(
    d: Result<SessionView, UnreadableView>,
    legacy: Result<SessionView, Seq<char>>,
) -> Result<SessionView, Seq<char>> {
    match d {
        Ok(s) => Ok(s),
        Err(UnreadableView::Legacy(e)) => legacy,
        Err(UnreadableView::Undecodable(e)) => Err("decode_as: "@ + e),
        Err(UnreadableView::Malformed(e)) => Err("from_cfe_v1: "@ + e),
    }
}

/// What reading bytes as a session, in either form, may come to.
pub open spec fn read_may<E: CryptoEngine>(
    engine: &E,
    data: Seq<u8>,
    read: Result<SessionView, Seq<char>>,
) -> bool {
    exists|d: Result<SessionView, UnreadableView>| #[trigger]
        engine::said_decode_session(engine, data, d) && read == any_record(d, read) && (
        d matches Err(UnreadableView::Legacy(e)) ==> engine::said_decode_legacy_session(
            engine,
            data,
            read,
        ))
}

/// What loading the binary record `data` as the session of `contact` may do.
pub open spec fn import_binary_may<E: CryptoEngine>(
    engine: &E,
    l: LifeView,
    contact: Seq<char>,
    data: Seq<u8>,
    next: LifeView,
    result: Result<(), Seq<char>>,
) -> bool {
    exists|d: Result<SessionView, UnreadableView>| #[trigger]
        engine::said_decode_session(engine, data, d) && (next, result) == imported(
            l,
            contact,
            binary_record(d),
        )
}

/// What loading the record `data`, in either form, as the session of `contact` may do.
pub open spec fn import_may<E: CryptoEngine>(
    engine: &E,
    l: LifeView,
    contact: Seq<char>,
    data: Seq<u8>,
    next: LifeView,
    result: Result<(), Seq<char>>,
) -> bool {
    exists|read: Result<SessionView, Seq<char>>| #[trigger]
        read_may(engine, data, read) && (next, result) == imported(l, contact, read)
}

/// The session of a binary record, or the text of its refusal.
pub fn session_of_binary(decoded: Result<Session, UnreadableSession>) -> (r: Result<
    Session,
    String,
>)
    ensures
        vecs::outcome(r) == binary_record(engine::decoded_session(decoded)),
{
    match decoded {
        Ok(s) => Ok(s),
        Err(UnreadableSession::Legacy(e)) => Err(e),
        Err(UnreadableSession::Undecodable(e)) => Err(e),
        Err(UnreadableSession::Malformed(e)) => Err(join("from_cfe_v1: ", e.as_str())),
    }
}

/// Archives made before this are dropped.
pub open spec fn archive_cutoff(now: u64) -> u64 {
    if clock::secs(now) >= ARCHIVE_GC_AGE_SECONDS {
        (clock::secs(now) - ARCHIVE_GC_AGE_SECONDS) as u64
    } else {
        0
    }
}

/// Whether the archive of `k` is past its time.
pub open spec fn archive_stale(l: LifeView, k: Seq<char>, now: u64) -> bool {
    l.archive_times.contains_key(k) && l.archive_times[k] < archive_cutoff(now)
}

/// The state without its stale archives.
pub open spec fn archives_swept(l: LifeView, now: u64) -> LifeView {
    LifeView {
        archives: Map::new(
            |k: Seq<char>| l.archives.contains_key(k) && !archive_stale(l, k, now),
            |k: Seq<char>| l.archives[k],
        ),
        archive_times: Map::new(
            |k: Seq<char>| l.archive_times.contains_key(k) && !archive_stale(l, k, now),
            |k: Seq<char>| l.archive_times[k],
        ),
        ..l
    }
}

/// The request to delete one archive.
pub open spec fn delete_archive(k: Seq<char>) -> ActionView {
    ActionView::SaveToSecureStore {
        slot: SlotView::SessionArchive { contact_id: k },
        data: Seq::empty(),
    }
}

/// The error the platform is told of.
pub open spec fn notify_error(code: Seq<char>, message: Seq<char>) -> ActionView {
    ActionView::NotifyError { code, message }
}

/// What follows a deferred contribution that was mixed into the session of `contact`, when the
/// session exported to `x`: the contribution is not forgotten unless the session that holds it can
/// be saved.
pub open spec fn contribution_settled(
    l: LifeView,
    contact: Seq<char>,
    x: Result<Seq<u8>, Seq<char>>,
) -> (LifeView, Seq<ActionView>) {
    match x {
        Err(e) => (l, seq![notify_error("SESSION_EXPORT_FAILED"@, e)]),
        Ok(data) => (
            LifeView { deferred: l.deferred.remove(contact), ..l },
            seq![
                save_session(contact, data),
                ActionView::SaveToSecureStore {
                    slot: SlotView::PqDeferred { contact_id: contact },
                    data: Seq::empty(),
                },
            ],
        ),
    }
}

/// Saving what is left of the contributions in waiting, where they could be encoded.
pub open spec fn save_deferred(y: Result<Seq<u8>, Seq<char>>) -> Seq<ActionView> {
    match y {
        Ok(data) => seq![
            ActionView::SaveToSecureStore { slot: SlotView::KyberSessionState, data },
        ],
        Err(_) => Seq::empty(),
    }
}

/// The engine mixes to `m`, exports to `x` and `y`: what follows.
pub open spec fn contribution_outcome<E: CryptoEngine>(
    engine: &E,
    l: LifeView,
    contact: Seq<char>,
    secret: Seq<u8>,
    m: Result<Seq<u8>, Seq<char>>,
    x: Result<Seq<u8>, Seq<char>>,
    entries: Seq<(Seq<char>, DeferredView)>,
    y: Result<Seq<u8>, Seq<char>>,
    next: LifeView,
    actions: Seq<ActionView>,
) -> bool {
    let (client, mixed) = client_api::mix_step(l.client, contact, m);
    let applied = LifeView { client, ..l };
    &&& str_map::lookup(l.client.sessions, contact) matches Some(s)
        ==> engine::said_mix_pq_contribution(engine, s, secret, m)
    &&& match mixed {
        Err(e) => next == l && actions == seq![notify_error("PQ_CONTRIBUTION_FAILED"@, e)],
        Ok(_) => {
            let (settled, saved) = contribution_settled(applied, contact, x);
            &&& exported(engine, applied, contact, x)
            &&& next == settled
            &&& if x is Ok {
                &&& pq_contribution::lists_deferred(entries, next.deferred)
                &&& engine::said_encode_deferred(engine, entries, y)
                &&& actions == saved + save_deferred(y)
            } else {
                actions == saved
            }
        },
    }
}

/// What applying the deferred contribution of `contact` may do.
pub open spec fn contribution_may<E: CryptoEngine>(
    engine: &E,
    l: LifeView,
    contact: Seq<char>,
    next: LifeView,
    actions: Seq<ActionView>,
) -> bool {
    match str_map::lookup(l.deferred, contact) {
        None => next == l && actions.len() == 0,
        Some(c) => exists|
            m: Result<Seq<u8>, Seq<char>>,
            x: Result<Seq<u8>, Seq<char>>,
            entries: Seq<(Seq<char>, DeferredView)>,
            y: Result<Seq<u8>, Seq<char>>,
        | #[trigger]
            contribution_outcome(
                engine,
                l,
                contact,
                c.shared_secret,
                m,
                x,
                entries,
                y,
                next,
                actions,
            ),
    }
}

/// The state with everything known of `contact` forgotten, but for what was processed.
pub open spec fn contact_forgotten(l: LifeView, contact: Seq<char>) -> LifeView {
    LifeView {
        client: ClientView { sessions: l.client.sessions.remove(contact), ..l.client },
        archives: l.archives.remove(contact),
        archive_times: l.archive_times.remove(contact),
        prekeys: l.prekeys.remove(contact),
        healing: healing_queue::heal_remove(l.healing, contact),
        deferred: l.deferred.remove(contact),
        ..l
    }
}

/// The state with the id of this device set, in the manager and in the client alike.
pub open spec fn renamed(l: LifeView, user_id: Seq<char>) -> LifeView {
    LifeView {
        my_user_id: user_id,
        client: ClientView { local_user_id: user_id, ..l.client },
        ..l
    }
}

/// The id of the session held with `contact`.
pub open spec fn session_id_of(l: LifeView, contact: Seq<char>) -> Option<Seq<char>> {
    match str_map::lookup(l.client.sessions, contact) {
        Some(s) => Some(s.session_id),
        None => None,
    }
}

/// A list of the pairs of a map, each once.
pub open spec fn lists_pairs<V>(ps: Seq<(Seq<char>, V)>, m: Map<Seq<char>, V>) -> bool {
    exists|order: Seq<Seq<char>>| #[trigger]
        str_map::names_keys(order, m) && ps == order.map_values(|k: Seq<char>| (k, m[k]))
}

/// The pairs by their keys; of two with one key the later.
pub open spec fn pairs_map<V>(ps: Seq<(Seq<char>, V)>) -> Map<Seq<char>, V>
    decreases ps.len(),
{
    if ps.len() == 0 {
        Map::empty()
    } else {
        pairs_map(ps.drop_last()).insert(ps.last().0, ps.last().1)
    }
}

/// Whether `s` is the record of the coordination state, with the openings `locks` in flight. The
/// processed messages are not part of it.
pub open spec fn records_state(s: StateView, l: LifeView, locks: Seq<Seq<char>>) -> bool {
    &&& s.my_user_id == l.my_user_id
    &&& s.processed_ids.len() == 0
    &&& healing_queue::lists_records(s.healing_records, l.healing)
    &&& s.init_locks == locks
    &&& lists_pairs(s.archives, l.archives)
    &&& lists_pairs(s.archive_timestamps, l.archive_times)
    &&& lists_pairs(s.prekey_tracker, l.prekeys)
    &&& lists_pairs(s.hybrid_pins, l.pins)
}

/// What exporting the coordination state, with `locks` in flight, may give.
pub open spec fn state_export_may<E: CryptoEngine>(
    engine: &E,
    l: LifeView,
    locks: Seq<Seq<char>>,
    reply: Result<Seq<u8>, Seq<char>>,
) -> bool {
    exists|s: StateView|
        records_state(s, l, locks) && #[trigger] engine::said_encode_state(engine, s, reply)
}

/// What loading a coordination record that decodes to `d` does: what is known next, and the
/// openings that were in flight.
pub open spec fn state_decoded(l: LifeView, d: Result<StateView, Seq<char>>, now: u64) -> (
    LifeView,
    Result<Seq<Seq<char>>, Seq<char>>,
) {
    match d {
        Err(e) => (l, Err(e)),
        Ok(s) => (state_loaded(l, s, now), Ok(s.init_locks)),
    }
}

/// What loading the coordination record `data` at `now` may do.
pub open spec fn state_import_may<E: CryptoEngine>(
    engine: &E,
    l: LifeView,
    data: Seq<u8>,
    now: u64,
    next: LifeView,
    result: Result<Seq<Seq<char>>, Seq<char>>,
) -> bool {
    exists|d: Result<StateView, Seq<char>>| #[trigger]
        engine::said_decode_state(engine, data, d) && (next, result) == state_decoded(l, d, now)
}

/// What archiving the session of `contact` at `now` may do.
pub open spec fn archive_may<E: CryptoEngine>(
    engine: &E,
    l: LifeView,
    contact: Seq<char>,
    now: u64,
    next: LifeView,
    actions: Seq<ActionView>,
) -> bool {
    exists|x: Result<Seq<u8>, Seq<char>>| #[trigger]
        exported(engine, l, contact, x) && (next, actions) == archived(l, contact, x, now)
}

/// What restoring the latest archive of `contact` may do.
pub open spec fn restore_may<E: CryptoEngine>(
    engine: &E,
    l: LifeView,
    contact: Seq<char>,
    next: LifeView,
    result: Result<(), Seq<char>>,
) -> bool {
    match str_map::lookup(l.archives, contact) {
        None => next == l && result == Err::<(), Seq<char>>("No archive for "@ + contact),
        Some(data) => import_may(engine, l, contact, data, next, result),
    }
}

/// The state after the coordination record `s` was loaded.
pub open spec fn state_loaded(l: LifeView, s: StateView, now: u64) -> LifeView {
    LifeView {
        ack: ack_store::ack_restored(l.ack, s.processed_ids, now),
        healing: HealView { records: healing_queue::by_contact(s.healing_records), ..l.healing },
        archives: pairs_map(s.archives),
        archive_times: pairs_map(s.archive_timestamps),
        prekeys: pairs_map(s.prekey_tracker),
        pins: pairs_map(s.hybrid_pins),
        ..l
    }
}

/// The sessions of this device and everything that is remembered about them.
pub struct SessionLifecycleManager<C: Clock, E: CryptoEngine> {
    pub client: ClassicClient<E>,
    pub ack_store: AckStore<C>,
    pub healing_queue: HealingQueue<C>,
    pub pq_manager: PQContributionManager,
    pub archives: StrMap<Vec<u8>>,
    pub archive_timestamps: StrMap<u64>,
    pub prekey_tracker: StrMap<u32>,
    pub hybrid_pins: StrMap<[u8; 32]>,
    pub my_user_id: String,
    pub clock: Arc<C>,
}

impl<C: Clock, E: CryptoEngine> View for SessionLifecycleManager<C, E> {
    type V = LifeView;

    open spec fn view(&self) -> LifeView {
        LifeView {
            client: self.client@,
            ack: self.ack_store@,
            healing: self.healing_queue@,
            deferred: self.pq_manager@,
            archives: self.archives@,
            archive_times: self.archive_timestamps@,
            prekeys: self.prekey_tracker@,
            pins: self.hybrid_pins@,
            my_user_id: self.my_user_id@,
        }
    }
}

/// A manager that knows nothing but its client.
pub open spec fn fresh_life(client: ClientView, user_id: Seq<char>) -> LifeView {
    LifeView {
        client: ClientView { local_user_id: user_id, ..client },
        ack: AckView { processed: Map::empty(), post_restart: false, ttl_secs: ACK_TTL_SECONDS },
        healing: HealView {
            records: Map::empty(),
            max_attempts: HEAL_MAX_ATTEMPTS,
            ttl_secs: HEAL_TTL_SECONDS,
        },
        deferred: Map::empty(),
        archives: Map::empty(),
        archive_times: Map::empty(),
        prekeys: Map::empty(),
        pins: Map::empty(),
        my_user_id: user_id,
    }
}

fn byte_pairs(m: &StrMap<Vec<u8>>) -> (r: Vec<(String, Vec<u8>)>)
    ensures
        lists_pairs(r.deep_view(), m@),
{
    let keys = m.keys();
    let ghost order = keys.deep_view();
    let ghost whole = order.map_values(|k: Seq<char>| (k, m@[k]));
    let mut out: Vec<(String, Vec<u8>)> = vecs::none();
    let mut i: usize = 0;
    while i < keys.len()
        invariant
            i <= keys@.len(),
            order == keys.deep_view(),
            str_map::names_keys(order, m@),
            whole == order.map_values(|k: Seq<char>| (k, m@[k])),
            out.deep_view() == whole.take(i as int),
        decreases keys@.len() - i,
    {
        assert(order[i as int] == keys@[i as int]@);
        assert(order.contains(order[i as int]));
        if let Some(v) = m.get(keys[i].as_str()) {
            let copy = vecs::bytes(v.as_slice());
            assert(copy.deep_view() =~= v.deep_view());
            vecs::push(&mut out, (keys[i].clone(), copy));
        }
        assert(whole.take(i + 1) =~= whole.take(i as int).push(whole[i as int]));
        i = i + 1;
    }
    assert(whole.take(i as int) =~= whole);
    out
}

fn copied_pairs<V: DeepView + Copy>(m: &StrMap<V>) -> (r: Vec<(String, V)>)
    ensures
        lists_pairs(r.deep_view(), m@),
{
    let keys = m.keys();
    let ghost order = keys.deep_view();
    let ghost whole = order.map_values(|k: Seq<char>| (k, m@[k]));
    let mut out: Vec<(String, V)> = vecs::none();
    let mut i: usize = 0;
    while i < keys.len()
        invariant
            i <= keys@.len(),
            order == keys.deep_view(),
            str_map::names_keys(order, m@),
            whole == order.map_values(|k: Seq<char>| (k, m@[k])),
            out.deep_view() == whole.take(i as int),
        decreases keys@.len() - i,
    {
        assert(order[i as int] == keys@[i as int]@);
        assert(order.contains(order[i as int]));
        if let Some(v) = m.get(keys[i].as_str()) {
            vecs::push(&mut out, (keys[i].clone(), *v));
        }
        assert(whole.take(i + 1) =~= whole.take(i as int).push(whole[i as int]));
        i = i + 1;
    }
    assert(whole.take(i as int) =~= whole);
    out
}

fn map_of_bytes(ps: &Vec<(String, Vec<u8>)>) -> (r: StrMap<Vec<u8>>)
    ensures
        r@ == pairs_map(ps.deep_view()),
{
    let ghost all = ps.deep_view();
    let mut m: StrMap<Vec<u8>> = StrMap::new();
    let mut i: usize = 0;
    assert(all.take(0) =~= Seq::<(Seq<char>, Seq<u8>)>::empty());
    while i < ps.len()
        invariant
            i <= ps@.len(),
            all == ps.deep_view(),
            m@ == pairs_map(all.take(i as int)),
        decreases ps@.len() - i,
    {
        assert(all.take(i + 1).drop_last() =~= all.take(i as int));
        assert(all.take(i + 1).last() == ps@[i as int].deep_view());
        let copy = vecs::bytes(ps[i].1.as_slice());
        assert(copy.deep_view() =~= ps@[i as int].1.deep_view());
        m.insert(ps[i].0.clone(), copy);
        i = i + 1;
    }
    assert(all.take(i as int) =~= all);
    m
}

fn map_of_copies<V: DeepView + Copy>(ps: &Vec<(String, V)>) -> (r: StrMap<V>)
    ensures
        r@ == pairs_map(ps.deep_view()),
{
    let ghost all = ps.deep_view();
    let mut m: StrMap<V> = StrMap::new();
    let mut i: usize = 0;
    assert(all.take(0) =~= Seq::<(Seq<char>, V::V)>::empty());
    while i < ps.len()
        invariant
            i <= ps@.len(),
            all == ps.deep_view(),
            m@ == pairs_map(all.take(i as int)),
        decreases ps@.len() - i,
    {
        assert(all.take(i + 1).drop_last() =~= all.take(i as int));
        assert(all.take(i + 1).last() == ps@[i as int].deep_view());
        m.insert(ps[i].0.clone(), ps[i].1);
        i = i + 1;
    }
    assert(all.take(i as int) =~= all);
    m
}

/// The request to save a session.
pub fn save_session_action(contact_id: &str, data: Vec<u8>) -> (r: Action)
    ensures
        r.deep_view() == save_session(contact_id@, data@),
{
    Action::SaveToSecureStore {
        slot: SecureStoreSlot::Session { contact_id: contact_id.to_owned() },
        data,
    }
}

/// Answers a message that was decrypted with what the export of its session gave.
pub fn answer_decrypt(
    contact_id: &str,
    plaintext: Vec<u8>,
    export: Result<Vec<u8>, String>,
) -> (r: Result<DecryptResult, String>)
    ensures
        vecs::outcome(r) == decrypt_answer(contact_id@, plaintext@, vecs::outcome_bytes(export)),
{
    match export {
        Err(e) => Err(e),
        Ok(data) => Ok(
            DecryptResult { plaintext, actions: vecs::one(save_session_action(contact_id, data)) },
        ),
    }
}

impl<E: CryptoEngine> SessionLifecycleManager<SystemClock, E> {
    /// A manager for the given local user that reads the time of the system.
    pub fn new(client: ClassicClient<E>, my_user_id: String) -> (r: Self)
        ensures
            r@ == fresh_life(client@, my_user_id@),
            r.client.engine == client.engine,
            r.reads_from(SystemClock),
    {
        Self::new_with_clock(client, my_user_id, Arc::new(SystemClock))
    }
}

impl<C: Clock, E: CryptoEngine> SessionLifecycleManager<C, E> {
    /// A manager of the sessions of `client`, which goes by `my_user_id`.
    ///
    /// The id is handed on to the client, so that every session it opens carries it: the two sides
    /// of a session must agree on it.
    pub fn new_with_clock(client: ClassicClient<E>, my_user_id: String, clock: Arc<C>) -> (r: Self)
        ensures
            r@ == fresh_life(client@, my_user_id@),
            r.client.engine == client.engine,
            r.reads_from(*clock),
    {
        let mut client = client;
        client.set_local_user_id(my_user_id.clone());
        SessionLifecycleManager {
            client,
            ack_store: AckStore::new_with_clock(ACK_TTL_SECONDS, clock::shared(&clock)),
            healing_queue: HealingQueue::new_with_clock(
                HEAL_MAX_ATTEMPTS,
                HEAL_TTL_SECONDS,
                clock::shared(&clock),
            ),
            pq_manager: PQContributionManager::new(),
            archives: StrMap::new(),
            archive_timestamps: StrMap::new(),
            prekey_tracker: StrMap::new(),
            hybrid_pins: StrMap::new(),
            my_user_id,
            clock,
        }
    }

    /// Whether `clock` is the one clock everything in this manager reads.
    pub open spec fn reads_from(self, clock: C) -> bool {
        &&& *self.clock == clock
        &&& self.ack_store.source() == clock
        &&& self.healing_queue.source() == clock
    }

    /// Whether everything in this manager reads the clock it reads in `other`.
    pub open spec fn same_clocks(self, other: Self) -> bool {
        &&& self.clock == other.clock
        &&& self.ack_store.source() == other.ack_store.source()
        &&& self.healing_queue.source() == other.healing_queue.source()
    }

    /// A reading the clock of this manager may give.
    pub open spec fn reads(&self, now: u64) -> bool {
        clock::reads(&*self.clock, now)
    }

    // ── Queries ─────────────────────────────────────────────────────────────

    /// Whether a session with this device is held.
    pub fn has_active_session(&self, contact_id: &str) -> (r: bool)
        ensures
            r == self@.client.sessions.contains_key(contact_id@),
    {
        self.client.has_session(contact_id)
    }

    /// Whether there is an archive of this device.
    pub fn has_archive(&self, contact_id: &str) -> (r: bool)
        ensures
            r == self@.archives.contains_key(contact_id@),
    {
        self.archives.contains_key(contact_id)
    }

    /// The id this device goes by.
    pub fn my_user_id(&self) -> (r: &str)
        ensures
            r@ == self@.my_user_id,
    {
        self.my_user_id.as_str()
    }

    /// The id of the session held with this device.
    pub fn active_session_id(&self, contact_id: &str) -> (r: Option<String>)
        ensures
            r.deep_view() == session_id_of(self@, contact_id@),
    {
        match self.client.get_session(contact_id) {
            Some(s) => Some(s.session_id.clone()),
            None => None,
        }
    }

    /// The hybrid identity pinned for this device.
    pub fn pinned_hybrid_identity(&self, contact_id: &str) -> (r: Option<&[u8; 32]>)
        ensures
            r.deep_view() == str_map::lookup(self@.pins, contact_id@),
    {
        self.hybrid_pins.get(contact_id)
    }

    /// The time, in seconds.
    pub fn now_secs(&self) -> (r: u64)
        ensures
            exists|now: u64| #[trigger]
                self.reads(now) && r == clock::secs(now),
    {
        let now: u64 = self.clock.now_ms();
        assert(self.reads(now));
        to_secs(now)
    }

    // ── Identity ────────────────────────────────────────────────────────────

    /// Pins the hybrid identity of this device.
    pub fn pin_hybrid_identity(&mut self, contact_id: &str, fingerprint: [u8; 32])
        ensures
            final(self)@ == (LifeView {
                pins: old(self)@.pins.insert(contact_id@, fingerprint@),
                ..old(self)@
            }),
            final(self).client.engine == old(self).client.engine,
            final(self).same_clocks(*old(self)),
    {
        assert(fingerprint.deep_view() =~= fingerprint@);
        self.hybrid_pins.insert(contact_id.to_owned(), fingerprint);
    }

    /// Forgets everything about a contact that the platform deliberately forgot.
    ///
    /// A local deletion boundary, not a protocol reset: nothing is archived and nothing is sent.
    pub fn forget_contact_state(&mut self, contact_id: &str)
        ensures
            final(self)@ == contact_forgotten(old(self)@, contact_id@),
            final(self).client.engine == old(self).client.engine,
            final(self).same_clocks(*old(self)),
    {
        let _ = self.client.remove_session(contact_id);
        let _ = self.archives.remove(contact_id);
        let _ = self.archive_timestamps.remove(contact_id);
        let _ = self.prekey_tracker.remove(contact_id);
        self.healing_queue.remove(contact_id);
        self.pq_manager.discard_for_contact(contact_id);
    }

    /// Sets the id this device goes by, here and in the client.
    pub fn set_my_user_id(&mut self, user_id: String)
        ensures
            final(self)@ == renamed(old(self)@, user_id@),
            final(self).client.engine == old(self).client.engine,
            final(self).same_clocks(*old(self)),
    {
        self.my_user_id = user_id.clone();
        self.client.set_local_user_id(user_id);
    }

    // ── Export and import of one session ────────────────────────────────────

    /// The session held with this device, as a plain record.
    pub fn session_record_for(&self, contact_id: &str) -> (r: Result<Session, String>)
        ensures
            match (str_map::lookup(self@.client.sessions, contact_id@), r) {
                (Some(s), Ok(t)) => t.deep_view() == s,
                (None, Err(e)) => e@ == "Session not found: "@ + contact_id@,
                _ => false,
            },
    {
        match self.client.get_session(contact_id) {
            Some(s) => Ok(s.clone()),
            None => Err(join("Session not found: ", contact_id)),
        }
    }

    /// The session held with this device, as a binary record.
    pub fn export_session_bytes_for(&self, contact_id: &str) -> (r: Result<Vec<u8>, String>)
        ensures
            exported(&self.client.engine, self@, contact_id@, vecs::outcome_bytes(r)),
    {
        match self.client.get_session(contact_id) {
            Some(s) => self.client.engine.encode_session(s),
            None => Err(join("Session not found: ", contact_id)),
        }
    }

    /// Files a decoded record as the session with this device.
    ///
    /// The record names its own contact and author; the argument is only what the caller believed.
    pub fn import_decoded(&mut self, contact_id: &str, decoded: Result<Session, String>) -> (r:
        Result<(), String>)
        ensures
            (final(self)@, vecs::outcome_unit(r)) == imported(
                old(self)@,
                contact_id@,
                vecs::outcome(decoded),
            ),
            final(self).client.engine == old(self).client.engine,
            final(self).same_clocks(*old(self)),
    {
        match decoded {
            Err(e) => Err(e),
            Ok(s) => match s.verify_identity(contact_id, self.client.local_user_id()) {
                Err(m) => Err(m),
                Ok(_) => {
                    let _ = self.client.import_session(contact_id, s);
                    Ok(())
                },
            },
        }
    }

    /// Reads bytes as a session: a binary record, or the text form of old.
    pub fn read_session(&self, data: &[u8]) -> (r: Result<Session, String>)
        ensures
            read_may(&self.client.engine, data@, vecs::outcome(r)),
    {
        let decoded = self.client.engine.decode_session(data);
        let ghost d = engine::decoded_session(decoded);
        assert(engine::said_decode_session(&self.client.engine, data@, d));
        match decoded {
            Ok(s) => Ok(s),
            Err(UnreadableSession::Legacy(_)) => {
                let read = self.client.engine.decode_legacy_session(data);
                assert(engine::said_decode_legacy_session(
                    &self.client.engine,
                    data@,
                    vecs::outcome(read),
                ));
                read
            },
            Err(UnreadableSession::Undecodable(e)) => Err(join("decode_as: ", e.as_str())),
            Err(UnreadableSession::Malformed(e)) => Err(join("from_cfe_v1: ", e.as_str())),
        }
    }

    /// Files a binary record as the session with this device. The text form of old is refused.
    pub fn import_session_binary(&mut self, contact_id: &str, data: &[u8]) -> (r: Result<
        (),
        String,
    >)
        ensures
            import_binary_may(
                &old(self).client.engine,
                old(self)@,
                contact_id@,
                data@,
                final(self)@,
                vecs::outcome_unit(r),
            ),
            final(self).client.engine == old(self).client.engine,
            final(self).same_clocks(*old(self)),
    {
        let decoded = self.client.engine.decode_session(data);
        let ghost d = engine::decoded_session(decoded);
        assert(engine::said_decode_session(&self.client.engine, data@, d));
        let read = session_of_binary(decoded);
        self.import_decoded(contact_id, read)
    }

    /// Files a record as the session with this device: a binary record, or the text form of old.
    pub fn import_session_bytes(&mut self, contact_id: &str, data: &[u8]) -> (r: Result<
        (),
        String,
    >)
        ensures
            import_may(
                &old(self).client.engine,
                old(self)@,
                contact_id@,
                data@,
                final(self)@,
                vecs::outcome_unit(r),
            ),
            final(self).client.engine == old(self).client.engine,
            final(self).same_clocks(*old(self)),
    {
        let read = self.read_session(data);
        assert(read_may(&self.client.engine, data@, vecs::outcome(read)));
        self.import_decoded(contact_id, read)
    }

    // ── Encrypt and decrypt ─────────────────────────────────────────────────

    /// Encrypts `plaintext` for this device.
    ///
    /// The updated session is always part of the actions.
    pub fn encrypt(&mut self, contact_id: &str, plaintext: &[u8]) -> (r: Result<
        EncryptResult,
        String,
    >)
        ensures
            encrypt_may(
                &old(self).client.engine,
                old(self)@,
                contact_id@,
                plaintext@,
                final(self)@,
                vecs::outcome(r),
            ),
            final(self).client.engine == old(self).client.engine,
            final(self).same_clocks(*old(self)),
    {
        let ghost l = self@;
        let ghost e = self.client.engine;
        if !self.client.has_session(contact_id) {
            return Err(
                join3(
                    "No active session for ",
                    contact_id,
                    ": call restore_latest_archive first",
                ),
            );
        }
        let ghost s = l.client.sessions[contact_id@];
        let sealed = self.client.encrypt_message(contact_id, plaintext);
        let ghost c = choose|reply: Result<EncryptedView, Seq<char>>|
            engine::said_encrypt(&e, s, plaintext@, reply) && (self.client@, vecs::outcome(sealed))
                == #[trigger] client_api::encrypt_step(l.client, contact_id@, reply);
        match sealed {
            Err(m) => {
                proof {
                    let x = Err::<Seq<u8>, Seq<char>>(Seq::empty());
                    assert(encrypt_outcome(
                        &e,
                        l,
                        contact_id@,
                        s,
                        plaintext@,
                        c,
                        x,
                        self@,
                        Err(m@),
                    ));
                }
                Err(m)
            },
            Ok(m) => {
                let ghost mv = m.deep_view();
                let export = self.export_session_bytes_for(contact_id);
                let ghost x = vecs::outcome_bytes(export);
                match export {
                    Err(f) => {
                        assert(encrypt_outcome(
                            &e,
                            l,
                            contact_id@,
                            s,
                            plaintext@,
                            c,
                            x,
                            self@,
                            Err(f@),
                        ));
                        Err(f)
                    },
                    Ok(data) => {
                        let r = EncryptResult {
                            message: WireMessage::from_message(m),
                            actions: vecs::one(save_session_action(contact_id, data)),
                        };
                        assert(encrypt_outcome(
                            &e,
                            l,
                            contact_id@,
                            s,
                            plaintext@,
                            c,
                            x,
                            self@,
                            Ok(r.deep_view()),
                        ));
                        Ok(r)
                    },
                }
            },
        }
    }

    fn decrypt_held(&mut self, contact_id: &str, m: &EncryptedRatchetMessage) -> (r: Result<
        DecryptResult,
        String,
    >)
        ensures
            decrypt_may(
                &old(self).client.engine,
                old(self)@,
                contact_id@,
                m.deep_view(),
                final(self)@,
                vecs::outcome(r),
            ),
            final(self).client.engine == old(self).client.engine,
            final(self).same_clocks(*old(self)),
    {
        let ghost l = self@;
        let ghost e = self.client.engine;
        if !self.client.has_session(contact_id) {
            return Err(join("No active session for ", contact_id));
        }
        let ghost s = l.client.sessions[contact_id@];
        let opened = self.client.decrypt_message(contact_id, m);
        let ghost d = choose|reply: Result<DecryptedView, Seq<char>>|
            engine::said_decrypt(&e, s, m.deep_view(), reply) && (
            self.client@,
            vecs::outcome_bytes(opened),
            ) == #[trigger] client_api::decrypt_step(l.client, contact_id@, reply);
        match opened {
            Err(f) => {
                proof {
                    let x = Err::<Seq<u8>, Seq<char>>(Seq::empty());
                    assert(decrypt_outcome(
                        &e,
                        l,
                        contact_id@,
                        s,
                        m.deep_view(),
                        d,
                        x,
                        self@,
                        Err(f@),
                    ));
                }
                Err(f)
            },
            Ok(plaintext) => {
                let export = self.export_session_bytes_for(contact_id);
                let ghost x = vecs::outcome_bytes(export);
                let r = answer_decrypt(contact_id, plaintext, export);
                assert(decrypt_outcome(
                    &e,
                    l,
                    contact_id@,
                    s,
                    m.deep_view(),
                    d,
                    x,
                    self@,
                    vecs::outcome(r),
                ));
                r
            },
        }
    }

    /// Decrypts a message that was read from its written form.
    pub fn decrypt(&mut self, contact_id: &str, wire: WireMessage) -> (r: Result<
        DecryptResult,
        String,
    >)
        ensures
            if wire.dh_public_key@.len() == 32 {
                decrypt_may(
                    &old(self).client.engine,
                    old(self)@,
                    contact_id@,
                    wire.deep_view(),
                    final(self)@,
                    vecs::outcome(r),
                )
            } else {
                final(self)@ == old(self)@ && vecs::outcome(r) == Err::<
                    DecryptResultView,
                    Seq<char>,
                >("dh_public_key must be 32 bytes"@)
            },
            final(self).client.engine == old(self).client.engine,
            final(self).same_clocks(*old(self)),
    {
        match wire.into_message() {
            Err(e) => Err(e),
            Ok(m) => self.decrypt_held(contact_id, &m),
        }
    }

    /// Decrypts a binary wire payload.
    pub fn decrypt_wire_payload(&mut self, contact_id: &str, payload: &[u8]) -> (r: Result<
        DecryptResult,
        String,
    >)
        ensures
            decrypt_wire_may(
                &old(self).client.engine,
                old(self)@,
                contact_id@,
                payload@,
                final(self)@,
                vecs::outcome(r),
            ),
            final(self).client.engine == old(self).client.engine,
            final(self).same_clocks(*old(self)),
    {
        let decoded = match unpack(payload) {
            Ok(d) => d,
            Err(e) => {
                return Err(e.to_text());
            },
        };
        match to_ratchet_message(&decoded) {
            Err(MessageFault::ShortBox) => Err("sealed_box too short (< 12 bytes)".to_owned()),
            Err(MessageFault::KeyLength) => Err("dh_public_key must be 32 bytes".to_owned()),
            Ok(m) => self.decrypt_held(contact_id, &m),
        }
    }

    // ── Archives ────────────────────────────────────────────────────────────

    /// Keeps `data` as the archive of this device, made at `now`.
    pub fn record_archive_at(&mut self, device_id: &str, data: Vec<u8>, now: u64) -> (r: Action)
        ensures
            final(self)@ == archive_recorded(old(self)@, device_id@, data@, now),
            r.deep_view() == (ActionView::SessionTerminated {
                contact_id: device_id@,
                archive_bytes: data@,
            }),
            final(self).client.engine == old(self).client.engine,
            final(self).same_clocks(*old(self)),
    {
        let copy = vecs::bytes(data.as_slice());
        assert(copy.deep_view() =~= data@);
        self.archives.insert(device_id.to_owned(), copy);
        self.archive_timestamps.insert(device_id.to_owned(), to_secs(now));
        Action::SessionTerminated { contact_id: device_id.to_owned(), archive_bytes: data }
    }

    /// Keeps `data` as the archive of this device.
    pub fn record_archive(&mut self, device_id: &str, data: Vec<u8>) -> (r: Action)
        ensures
            exists|now: u64| #[trigger]
                old(self).reads(now) && final(self)@ == archive_recorded(
                    old(self)@,
                    device_id@,
                    data@,
                    now,
                ),
            r.deep_view() == (ActionView::SessionTerminated {
                contact_id: device_id@,
                archive_bytes: data@,
            }),
            final(self).client.engine == old(self).client.engine,
            final(self).same_clocks(*old(self)),
    {
        let now: u64 = self.clock.now_ms();
        assert(self.reads(now));
        self.record_archive_at(device_id, data, now)
    }

    /// Archives the session of this device as what its export gave.
    pub fn archive_exported(
        &mut self,
        contact_id: &str,
        export: Result<Vec<u8>, String>,
        now: u64,
    ) -> (r: Vec<Action>)
        ensures
            (final(self)@, r.deep_view()) == archived(
                old(self)@,
                contact_id@,
                vecs::outcome_bytes(export),
                now,
            ),
            final(self).client.engine == old(self).client.engine,
            final(self).same_clocks(*old(self)),
    {
        match export {
            Err(_) => vecs::none(),
            Ok(data) => {
                let action = self.record_archive_at(contact_id, data, now);
                let _ = self.client.remove_session(contact_id);
                vecs::one(action)
            },
        }
    }

    /// Moves the session of this device into the archive at `now`.
    pub fn archive_session_at(&mut self, contact_id: &str, now: u64) -> (r: Vec<Action>)
        ensures
            archive_may(
                &old(self).client.engine,
                old(self)@,
                contact_id@,
                now,
                final(self)@,
                r.deep_view(),
            ),
            final(self).client.engine == old(self).client.engine,
            final(self).same_clocks(*old(self)),
    {
        let export = self.export_session_bytes_for(contact_id);
        let ghost x = vecs::outcome_bytes(export);
        assert(exported(&self.client.engine, self@, contact_id@, x));
        self.archive_exported(contact_id, export, now)
    }

    /// Moves the session of this device into the archive.
    pub fn archive_session(&mut self, contact_id: &str) -> (r: Vec<Action>)
        ensures
            exists|now: u64| #[trigger]
                old(self).reads(now) && archive_may(
                    &old(self).client.engine,
                    old(self)@,
                    contact_id@,
                    now,
                    final(self)@,
                    r.deep_view(),
                ),
            final(self).client.engine == old(self).client.engine,
            final(self).same_clocks(*old(self)),
    {
        let now: u64 = self.clock.now_ms();
        assert(self.reads(now));
        self.archive_session_at(contact_id, now)
    }

    /// Files the latest archive of this device as its session.
    pub fn restore_latest_archive(&mut self, contact_id: &str) -> (r: Result<(), String>)
        ensures
            restore_may(
                &old(self).client.engine,
                old(self)@,
                contact_id@,
                final(self)@,
                vecs::outcome_unit(r),
            ),
            final(self).client.engine == old(self).client.engine,
            final(self).same_clocks(*old(self)),
    {
        let data = match self.archives.get(contact_id) {
            Some(d) => {
                assert(d.deep_view() =~= d@);
                vecs::bytes(d.as_slice())
            },
            None => {
                return Err(join("No archive for ", contact_id));
            },
        };
        self.import_session_bytes(contact_id, data.as_slice())
    }

    /// Keeps an archive loaded from the platform, and files it as the session if it can be.
    pub fn load_archive_bytes(&mut self, contact_id: &str, data: Vec<u8>)
        ensures
            exists|result: Result<(), Seq<char>>| #[trigger]
                import_may(
                    &old(self).client.engine,
                    archive_kept(old(self)@, contact_id@, data@),
                    contact_id@,
                    data@,
                    final(self)@,
                    result,
                ),
            final(self).client.engine == old(self).client.engine,
            final(self).same_clocks(*old(self)),
    {
        let copy = vecs::bytes(data.as_slice());
        assert(copy.deep_view() =~= data@);
        self.archives.insert(contact_id.to_owned(), copy);
        let _ = self.import_session_bytes(contact_id, data.as_slice());
    }

    /// Drops the archives that are stale at `now`, and asks the platform to delete them.
    pub fn gc_old_archives_at(&mut self, now: u64) -> (r: Vec<Action>)
        ensures
            final(self)@ == archives_swept(old(self)@, now),
            exists|order: Seq<Seq<char>>| #[trigger]
                names_stale(order, old(self)@, now) && r.deep_view() == order.map_values(
                    |k: Seq<char>| delete_archive(k),
                ),
            final(self).client.engine == old(self).client.engine,
            final(self).same_clocks(*old(self)),
    {
        let ghost before = self@;
        let cutoff: u64 = to_secs(now).saturating_sub(ARCHIVE_GC_AGE_SECONDS);
        let keys = self.archive_timestamps.keys();
        let ghost all = keys.deep_view();
        let ghost mut order: Seq<Seq<char>> = Seq::empty();
        let mut out: Vec<Action> = vecs::none();
        let mut i: usize = 0;
        assert(out.deep_view() =~= order.map_values(|k: Seq<char>| delete_archive(k)));
        while i < keys.len()
            invariant
                i <= keys@.len(),
                all == keys.deep_view(),
                cutoff == archive_cutoff(now),
                str_map::names_keys(all, before.archive_times),
                self.client.engine == old(self).client.engine,
                self.same_clocks(*old(self)),
                self@ == (LifeView {
                    archives: self@.archives,
                    archive_times: self@.archive_times,
                    ..before
                }),
                forall|k: Seq<char>| #[trigger]
                    self@.archives.contains_key(k) <==> before.archives.contains_key(k) && !(
                    all.take(i as int).contains(k) && archive_stale(before, k, now)),
                forall|k: Seq<char>| #[trigger]
                    self@.archives.contains_key(k) ==> self@.archives[k] == before.archives[k],
                forall|k: Seq<char>| #[trigger]
                    self@.archive_times.contains_key(k) <==> before.archive_times.contains_key(k)
                        && !(all.take(i as int).contains(k) && archive_stale(before, k, now)),
                forall|k: Seq<char>| #[trigger]
                    self@.archive_times.contains_key(k) ==> self@.archive_times[k]
                        == before.archive_times[k],
                order.no_duplicates(),
                forall|k: Seq<char>| #[trigger]
                    order.contains(k) <==> all.take(i as int).contains(k) && archive_stale(
                        before,
                        k,
                        now,
                    ),
                out.deep_view() == order.map_values(|k: Seq<char>| delete_archive(k)),
            decreases keys@.len() - i,
        {
            let ghost key = all[i as int];
            proof {
                assert(key == keys@[i as int]@);
                assert(all.take(i + 1) =~= all.take(i as int).push(key));
                assert forall|k: Seq<char>| #[trigger] all.take(i + 1).contains(k) <==> (all.take(
                    i as int,
                ).contains(k) || k == key) by {
                    vecs::push_contains(all.take(i as int), key, k);
                }
                assert(all.contains(key));
                assert(!all.take(i as int).contains(key)) by {
                    if all.take(i as int).contains(key) {
                        let j = choose|j: int| 0 <= j < i && all.take(i as int)[j] == key;
                        assert(all[j] == all[i as int]);
                    }
                }
                assert(self@.archive_times.contains_key(key));
            }
            let expired = match self.archive_timestamps.get(keys[i].as_str()) {
                Some(ts) => *ts < cutoff,
                None => false,
            };
            if expired {
                let _ = self.archives.remove(keys[i].as_str());
                let _ = self.archive_timestamps.remove(keys[i].as_str());
                vecs::push(
                    &mut out,
                    Action::SaveToSecureStore {
                        slot: SecureStoreSlot::SessionArchive { contact_id: keys[i].clone() },
                        data: Vec::new(),
                    },
                );
                proof {
                    assert forall|k: Seq<char>| #[trigger] order.push(key).contains(k) <==> (
                    order.contains(k) || k == key) by {
                        vecs::push_contains(order, key, k);
                    }
                    vecs::push_no_duplicates(order, key);
                    assert(order.push(key).map_values(|k: Seq<char>| delete_archive(k))
                        =~= order.map_values(|k: Seq<char>| delete_archive(k)).push(
                        delete_archive(key),
                    ));
                    order = order.push(key);
                }
            }
            i = i + 1;
        }
        proof {
            assert(all.take(i as int) =~= all);
            assert(self@.archives =~= archives_swept(before, now).archives);
            assert(self@.archive_times =~= archives_swept(before, now).archive_times);
            assert(self@ =~= archives_swept(before, now));
            assert(names_stale(order, before, now));
        }
        out
    }

    /// Drops the archives older than a day, and asks the platform to delete them.
    pub fn gc_old_archives(&mut self) -> (r: Vec<Action>)
        ensures
            exists|now: u64, order: Seq<Seq<char>>| #[trigger]
                old(self).reads(now) && final(self)@ == archives_swept(old(self)@, now) && #[trigger] names_stale(
                    order,
                    old(self)@,
                    now,
                ) && r.deep_view() == order.map_values(|k: Seq<char>| delete_archive(k)),
            final(self).client.engine == old(self).client.engine,
            final(self).same_clocks(*old(self)),
    {
        let now: u64 = self.clock.now_ms();
        assert(self.reads(now));
        self.gc_old_archives_at(now)
    }

    // ── Prekey tracking ─────────────────────────────────────────────────────

    /// Records the one-time prekey used to open a session with this device.
    pub fn track_prekey(&mut self, contact_id: &str, otpk_id: u32)
        ensures
            final(self)@ == (LifeView {
                prekeys: old(self)@.prekeys.insert(contact_id@, otpk_id),
                ..old(self)@
            }),
            final(self).client.engine == old(self).client.engine,
            final(self).same_clocks(*old(self)),
    {
        self.prekey_tracker.insert(contact_id.to_owned(), otpk_id);
    }

    /// Whether this prekey differs from the one recorded: the contact has reinstalled.
    pub fn is_reinstall(&self, contact_id: &str, new_otpk_id: u32) -> (r: bool)
        ensures
            r == (str_map::lookup(self@.prekeys, contact_id@) matches Some(p) && p != new_otpk_id),
    {
        match self.prekey_tracker.get(contact_id) {
            Some(p) => *p != new_otpk_id,
            None => false,
        }
    }

    // ── Deferred contributions ──────────────────────────────────────────────

    /// Settles a contribution that is in the session of this device, when the session exported to
    /// `export`.
    pub fn settle_contribution(
        &mut self,
        contact_id: &str,
        export: Result<Vec<u8>, String>,
    ) -> (r: Vec<Action>)
        ensures
            (final(self)@, r.deep_view()) == contribution_settled(
                old(self)@,
                contact_id@,
                vecs::outcome_bytes(export),
            ),
            final(self).client.engine == old(self).client.engine,
            final(self).same_clocks(*old(self)),
    {
        match export {
            Err(e) => vecs::one(
                Action::NotifyError { code: "SESSION_EXPORT_FAILED".to_owned(), message: e },
            ),
            Ok(data) => {
                let mut actions = vecs::one(save_session_action(contact_id, data));
                let deleted = self.pq_manager.finalize_consumed(contact_id);
                vecs::append(&mut actions, deleted);
                assert(actions.deep_view() =~= contribution_settled(
                    old(self)@,
                    contact_id@,
                    vecs::outcome_bytes(export),
                ).1);
                actions
            },
        }
    }

    /// Applies the deferred contribution of this device, if one waits.
    ///
    /// The contribution is forgotten only once the session that holds it can be saved, and the
    /// record without it is part of the same actions: a crash before they are persisted finds
    /// either both applied or neither.
    pub fn maybe_apply_pq_contribution(&mut self, contact_id: &str) -> (r: Vec<Action>)
        ensures
            contribution_may(
                &old(self).client.engine,
                old(self)@,
                contact_id@,
                final(self)@,
                r.deep_view(),
            ),
            final(self).client.engine == old(self).client.engine,
            final(self).same_clocks(*old(self)),
    {
        let ghost l = self@;
        let ghost e = self.client.engine;
        let contribution = match self.pq_manager.peek_deferred(contact_id) {
            Some(c) => c,
            None => {
                return vecs::none();
            },
        };
        let ghost secret = contribution.deep_view().shared_secret;
        assert(str_map::lookup(l.deferred, contact_id@)->0.shared_secret == secret);
        let mixed = self.client.apply_pq_contribution_to_session(
            contact_id,
            contribution.shared_secret.as_slice(),
        );
        let ghost m = choose|reply: Result<Seq<u8>, Seq<char>>|
            (str_map::lookup(l.client.sessions, contact_id@) matches Some(s)
                ==> engine::said_mix_pq_contribution(&e, s, secret, reply)) && (
            self.client@,
            vecs::outcome_unit(mixed),
            ) == #[trigger] client_api::mix_step(l.client, contact_id@, reply);
        if let Err(f) = mixed {
            let ghost message = f@;
            let actions = vecs::one(
                Action::NotifyError { code: "PQ_CONTRIBUTION_FAILED".to_owned(), message: f },
            );
            proof {
                let none = Err::<Seq<u8>, Seq<char>>(Seq::empty());
                assert(self@ =~= l);
                assert(contribution_outcome(
                    &e,
                    l,
                    contact_id@,
                    secret,
                    m,
                    none,
                    Seq::empty(),
                    none,
                    self@,
                    actions.deep_view(),
                ));
            }
            return actions;
        }
        let export = self.export_session_bytes_for(contact_id);
        let ghost x = vecs::outcome_bytes(export);
        let kept = export.is_ok();
        let mut actions = self.settle_contribution(contact_id, export);
        let ghost saved = actions.deep_view();
        let ghost mut listed: Seq<(Seq<char>, DeferredView)> = Seq::empty();
        let ghost mut y: Result<Seq<u8>, Seq<char>> = Err(Seq::empty());
        if kept {
            let entries = self.pq_manager.snapshot();
            let rest = self.client.engine.encode_deferred(&entries);
            proof {
                listed = entries.deep_view();
                y = vecs::outcome_bytes(rest);
                assert(engine::said_encode_deferred(&e, listed, y));
            }
            if let Ok(data) = rest {
                vecs::push(
                    &mut actions,
                    Action::SaveToSecureStore { slot: SecureStoreSlot::KyberSessionState, data },
                );
            }
            assert(actions.deep_view() =~= saved + save_deferred(y));
        }
        assert(contribution_outcome(
            &e,
            l,
            contact_id@,
            secret,
            m,
            x,
            listed,
            y,
            self@,
            actions.deep_view(),
        ));
        actions
    }

    // ── Persistence ─────────────────────────────────────────────────────────

    /// The contributions in waiting, as a binary record.
    pub fn export_kyber_session_state_cfe(&self) -> (r: Result<Vec<u8>, String>)
        ensures
            exists|entries: Seq<(Seq<char>, DeferredView)>|
                pq_contribution::lists_deferred(entries, self@.deferred)
                    && #[trigger] engine::said_encode_deferred(
                    &self.client.engine,
                    entries,
                    vecs::outcome_bytes(r),
                ),
    {
        let entries = self.pq_manager.snapshot();
        let ghost listed = entries.deep_view();
        let r = self.client.engine.encode_deferred(&entries);
        assert(engine::said_encode_deferred(&self.client.engine, listed, vecs::outcome_bytes(r)));
        r
    }

    /// Replaces the contributions in waiting by those of a binary record.
    pub fn import_kyber_session_state_cfe(&mut self, data: &[u8]) -> (r: Result<(), String>)
        ensures
            exists|d: Result<Seq<(Seq<char>, DeferredView)>, Seq<char>>| #[trigger]
                engine::said_decode_deferred(&old(self).client.engine, data@, d) && (
                final(self)@,
                vecs::outcome_unit(r),
                ) == (match d {
                    Err(e) => (old(self)@, Err::<(), Seq<char>>(e)),
                    Ok(entries) => (
                        LifeView {
                            deferred: pq_contribution::deferred_map(entries),
                            ..old(self)@
                        },
                        Ok::<(), Seq<char>>(()),
                    ),
                }),
            final(self).client.engine == old(self).client.engine,
            final(self).same_clocks(*old(self)),
    {
        let decoded = self.client.engine.decode_deferred(data);
        let ghost d = vecs::outcome(decoded);
        assert(engine::said_decode_deferred(&self.client.engine, data@, d));
        match decoded {
            Err(e) => Err(e),
            Ok(entries) => {
                self.pq_manager.restore(entries);
                Ok(())
            },
        }
    }

    /// The coordination state, with the openings `init_locks` in flight, as a plain record.
    ///
    /// The processed messages are left out: the platform's durable store owns them, and after a
    /// restart every miss asks it.
    pub fn state_record(&self, init_locks: &Vec<String>) -> (r: OrchestratorState)
        ensures
            records_state(r.deep_view(), self@, init_locks.deep_view()),
    {
        OrchestratorState {
            my_user_id: self.my_user_id.clone(),
            processed_ids: vecs::none(),
            healing_records: self.healing_queue.snapshot_records(),
            init_locks: vecs::clone_strings(init_locks),
            archives: byte_pairs(&self.archives),
            archive_timestamps: copied_pairs(&self.archive_timestamps),
            prekey_tracker: copied_pairs(&self.prekey_tracker),
            hybrid_pins: copied_pairs(&self.hybrid_pins),
        }
    }

    /// The coordination state, with the openings `init_locks` in flight, as a binary record.
    pub fn export_orchestrator_state_cfe(&self, init_locks: &Vec<String>) -> (r: Result<
        Vec<u8>,
        String,
    >)
        ensures
            state_export_may(
                &self.client.engine,
                self@,
                init_locks.deep_view(),
                vecs::outcome_bytes(r),
            ),
    {
        let state = self.state_record(init_locks);
        let ghost s = state.deep_view();
        let r = self.client.engine.encode_state(&state);
        assert(engine::said_encode_state(&self.client.engine, s, vecs::outcome_bytes(r)));
        r
    }

    /// Takes over a coordination record; the openings that were in flight.
    pub fn load_state(&mut self, state: OrchestratorState, now: u64) -> (r: Vec<String>)
        ensures
            final(self)@ == state_loaded(old(self)@, state.deep_view(), now),
            r.deep_view() == state.deep_view().init_locks,
            final(self).client.engine == old(self).client.engine,
            final(self).same_clocks(*old(self)),
    {
        self.archives = map_of_bytes(&state.archives);
        self.archive_timestamps = map_of_copies(&state.archive_timestamps);
        self.prekey_tracker = map_of_copies(&state.prekey_tracker);
        self.hybrid_pins = map_of_copies(&state.hybrid_pins);
        self.ack_store.restore_cache_at(state.processed_ids, now);
        self.healing_queue.restore_records(state.healing_records);
        state.init_locks
    }

    /// Takes over a binary coordination record at `now`; the openings that were in flight.
    pub fn import_orchestrator_state_cfe_at(&mut self, data: &[u8], now: u64) -> (r: Result<
        Vec<String>,
        String,
    >)
        ensures
            state_import_may(
                &old(self).client.engine,
                old(self)@,
                data@,
                now,
                final(self)@,
                vecs::outcome(r),
            ),
            final(self).client.engine == old(self).client.engine,
            final(self).same_clocks(*old(self)),
    {
        let decoded = self.client.engine.decode_state(data);
        let ghost d = vecs::outcome(decoded);
        assert(engine::said_decode_state(&self.client.engine, data@, d));
        match decoded {
            Err(e) => Err(e),
            Ok(state) => Ok(self.load_state(state, now)),
        }
    }

    /// Takes over a binary coordination record; the openings that were in flight.
    pub fn import_orchestrator_state_cfe(&mut self, data: &[u8]) -> (r: Result<
        Vec<String>,
        String,
    >)
        ensures
            exists|now: u64| #[trigger]
                old(self).reads(now) && state_import_may(
                    &old(self).client.engine,
                    old(self)@,
                    data@,
                    now,
                    final(self)@,
                    vecs::outcome(r),
                ),
            final(self).client.engine == old(self).client.engine,
            final(self).same_clocks(*old(self)),
    {
        let now: u64 = self.clock.now_ms();
        assert(self.reads(now));
        self.import_orchestrator_state_cfe_at(data, now)
    }
}

/// A list that names every stale archive exactly once.
pub open spec fn names_stale(order: Seq<Seq<char>>, l: LifeView, now: u64) -> bool {
    &&& order.no_duplicates()
    &&& forall|k: Seq<char>| #[trigger] order.contains(k) <==> archive_stale(l, k, now)
}

// ── Laws ────────────────────────────────────────────────────────────────────

/// The pairs of a list that names each key of a map once, read back, are the map.
proof fn listed_pairs_read_back<V>(
    order: Seq<Seq<char>>,
    ps: Seq<(Seq<char>, V)>,
    m: Map<Seq<char>, V>,
)
    requires
        ps == order.map_values(|k: Seq<char>| (k, m[k])),
    ensures
        forall|k: Seq<char>| #[trigger] pairs_map(ps).contains_key(k) <==> order.contains(k),
        forall|k: Seq<char>| order.contains(k) ==> #[trigger] pairs_map(ps)[k] == m[k],
    decreases order.len(),
{
    if order.len() > 0 {
        let shorter = order.drop_last();
        assert(ps.drop_last() =~= shorter.map_values(|k: Seq<char>| (k, m[k])));
        listed_pairs_read_back(shorter, ps.drop_last(), m);
        let before = pairs_map(ps.drop_last());
        assert(ps.last() == (order.last(), m[order.last()]));
        assert(pairs_map(ps) == before.insert(order.last(), m[order.last()]));
        assert(order =~= shorter.push(order.last()));
        assert forall|k: Seq<char>| #[trigger] pairs_map(ps).contains_key(k) <==> order.contains(
            k,
        ) by {
            vecs::push_contains(shorter, order.last(), k);
            assert(before.contains_key(k) <==> shorter.contains(k));
        }
        assert forall|k: Seq<char>| order.contains(k) implies #[trigger] pairs_map(ps)[k]
            == m[k] by {
            vecs::push_contains(shorter, order.last(), k);
            if k != order.last() {
                assert(before[k] == m[k]);
            }
        }
    }
}

/// A list of the pairs of a map, read back, is the map.
pub proof fn pairs_read_back<V>(ps: Seq<(Seq<char>, V)>, m: Map<Seq<char>, V>)
    requires
        lists_pairs(ps, m),
    ensures
        pairs_map(ps) == m,
{
    let order = choose|order: Seq<Seq<char>>| #[trigger]
        str_map::names_keys(order, m) && ps == order.map_values(|k: Seq<char>| (k, m[k]));
    listed_pairs_read_back(order, ps, m);
    assert forall|k: Seq<char>| pairs_map(ps).contains_key(k) <==> #[trigger] m.contains_key(
        k,
    ) by {
        assert(order.contains(k) <==> m.contains_key(k));
    }
    assert(pairs_map(ps) =~= m);
}

proof fn listed_records_read_back(
    order: Seq<Seq<char>>,
    rs: Seq<healing_queue::HealRec>,
    m: Map<Seq<char>, healing_queue::HealRec>,
)
    requires
        rs == order.map_values(|k: Seq<char>| m[k]),
        forall|k: Seq<char>| order.contains(k) ==> #[trigger] m[k].contact_id == k,
    ensures
        forall|k: Seq<char>| #[trigger]
            healing_queue::by_contact(rs).contains_key(k) <==> order.contains(k),
        forall|k: Seq<char>|
            order.contains(k) ==> #[trigger] healing_queue::by_contact(rs)[k] == m[k],
    decreases order.len(),
{
    if order.len() > 0 {
        let shorter = order.drop_last();
        assert(rs.drop_last() =~= shorter.map_values(|k: Seq<char>| m[k]));
        assert(order =~= shorter.push(order.last()));
        assert forall|k: Seq<char>| shorter.contains(k) implies #[trigger] m[k].contact_id == k by {
            vecs::push_contains(shorter, order.last(), k);
        }
        listed_records_read_back(shorter, rs.drop_last(), m);
        vecs::push_contains(shorter, order.last(), order.last());
        assert(m[order.last()].contact_id == order.last());
        let before = healing_queue::by_contact(rs.drop_last());
        assert(rs.last() == m[order.last()]);
        assert(healing_queue::by_contact(rs) == before.insert(order.last(), m[order.last()]));
        assert forall|k: Seq<char>| #[trigger]
            healing_queue::by_contact(rs).contains_key(k) <==> order.contains(k) by {
            vecs::push_contains(shorter, order.last(), k);
            assert(before.contains_key(k) <==> shorter.contains(k));
        }
        assert forall|k: Seq<char>| order.contains(k) implies #[trigger] healing_queue::by_contact(
            rs,
        )[k] == m[k] by {
            vecs::push_contains(shorter, order.last(), k);
            if k != order.last() {
                assert(before[k] == m[k]);
            }
        }
    }
}

/// What a record of the coordination state was written from is what is read back from it, on
/// whatever state it is loaded: the heals in progress, the archives and their times, the prekeys
/// last seen and the identities pinned. Of the processed messages nothing is written, and nothing
/// is known after the load: the durable store is asked.
pub proof fn a_loaded_state_is_the_state_recorded(
    s: StateView,
    l: LifeView,
    locks: Seq<Seq<char>>,
    other: LifeView,
    now: u64,
)
    requires
        records_state(s, l, locks),
        healing_queue::keyed(l.healing),
    ensures
        state_loaded(other, s, now).archives == l.archives,
        state_loaded(other, s, now).archive_times == l.archive_times,
        state_loaded(other, s, now).prekeys == l.prekeys,
        state_loaded(other, s, now).pins == l.pins,
        state_loaded(other, s, now).healing.records == l.healing.records,
        state_loaded(other, s, now).ack.processed == Map::<Seq<char>, u64>::empty(),
        state_loaded(other, s, now).ack.post_restart,
        state_loaded(other, s, now).client == other.client,
        s.init_locks == locks,
{
    pairs_read_back(s.archives, l.archives);
    pairs_read_back(s.archive_timestamps, l.archive_times);
    pairs_read_back(s.prekey_tracker, l.prekeys);
    pairs_read_back(s.hybrid_pins, l.pins);
    let m = l.healing.records;
    let order = choose|order: Seq<Seq<char>>| #[trigger]
        str_map::names_keys(order, m) && s.healing_records == order.map_values(
            |k: Seq<char>| m[k],
        );
    assert forall|k: Seq<char>| order.contains(k) implies #[trigger] m[k].contact_id == k by {
        assert(m.contains_key(k));
    }
    listed_records_read_back(order, s.healing_records, m);
    assert forall|k: Seq<char>| healing_queue::by_contact(s.healing_records).contains_key(k)
        <==> #[trigger] m.contains_key(k) by {
        assert(order.contains(k) <==> m.contains_key(k));
    }
    assert(healing_queue::by_contact(s.healing_records) =~= m);
    assert(state_loaded(other, s, now).ack.processed =~= Map::<Seq<char>, u64>::empty());
}

/// The record of the coordination state does not depend on which messages were processed.
pub proof fn the_record_omits_what_was_processed(
    s: StateView,
    l: LifeView,
    ack: AckView,
    locks: Seq<Seq<char>>,
)
    requires
        records_state(s, l, locks),
    ensures
        s.processed_ids.len() == 0,
        records_state(s, LifeView { ack, ..l }, locks),
{
}

/// A record that carries processed messages is still read: each of them is a duplicate after the
/// load.
pub proof fn processed_messages_of_a_record_are_read(
    s: StateView,
    l: LifeView,
    id: Seq<char>,
    now: u64,
)
    requires
        s.processed_ids.contains(id),
    ensures
        state_loaded(l, s, now).ack.processed.contains_key(id),
{
}

/// A record of another contact, of another local identity, or that cannot be read, is refused and
/// changes nothing. What is filed names the contact it is filed under.
pub proof fn a_refused_record_changes_nothing<E: CryptoEngine>(
    engine: &E,
    l: LifeView,
    contact: Seq<char>,
    data: Seq<u8>,
    next: LifeView,
    result: Result<(), Seq<char>>,
)
    requires
        import_may(engine, l, contact, data, next, result) || import_binary_may(
            engine,
            l,
            contact,
            data,
            next,
            result,
        ),
    ensures
        result is Err ==> next == l,
        result is Ok ==> next.client.sessions.contains_key(contact)
            && next.client.sessions[contact].contact_id == contact,
        result is Ok && l.client.local_user_id.len() > 0
            && next.client.sessions[contact].local_user_id.len() > 0
            ==> next.client.sessions[contact].local_user_id == l.client.local_user_id,
        forall|k: Seq<char>|
            k != contact ==> #[trigger] str_map::lookup(next.client.sessions, k)
                == str_map::lookup(l.client.sessions, k),
{
}

/// Bytes the decoder calls the text form of old, and never anything else, are read as such where
/// either form is taken, and refused, with nothing changed, where a binary record is asked for.
pub proof fn the_text_form_is_no_binary_record<E: CryptoEngine>(
    engine: &E,
    l: LifeView,
    contact: Seq<char>,
    data: Seq<u8>,
    next: LifeView,
    result: Result<(), Seq<char>>,
)
    requires
        forall|d: Result<SessionView, UnreadableView>| #[trigger]
            engine::said_decode_session(engine, data, d) ==> (d matches Err(
                UnreadableView::Legacy(e),
            )),
    ensures
        import_binary_may(engine, l, contact, data, next, result) ==> next == l && result is Err,
        import_may(engine, l, contact, data, next, result) ==> exists|
            legacy: Result<SessionView, Seq<char>>,
        | #[trigger]
            engine::said_decode_legacy_session(engine, data, legacy) && (next, result) == imported(
                l,
                contact,
                legacy,
            ),
{
    if import_may(engine, l, contact, data, next, result) {
        let read = choose|read: Result<SessionView, Seq<char>>| #[trigger]
            read_may(engine, data, read) && (next, result) == imported(l, contact, read);
        assert(engine::said_decode_legacy_session(engine, data, read));
    }
}

/// The record of a held session, read back, restores the session: archiving it takes it out of
/// use and keeps the record, and importing the record puts the same session back.
pub proof fn an_archived_session_comes_back(
    l: LifeView,
    contact: Seq<char>,
    record: Seq<u8>,
    now: u64,
)
    requires
        l.client.sessions.contains_key(contact),
        double_ratchet::identity_mismatch(
            l.client.sessions[contact],
            contact,
            l.client.local_user_id,
        ) is None,
    ensures
        ({
            let away = archived(l, contact, Ok(record), now).0;
            let back = imported(away, contact, Ok(l.client.sessions[contact]));
            &&& !away.client.sessions.contains_key(contact)
            &&& away.archives[contact] == record
            &&& back.1 is Ok
            &&& back.0.client == l.client
        }),
{
    let away = archived(l, contact, Ok::<Seq<u8>, Seq<char>>(record), now).0;
    let back = imported(
        away,
        contact,
        Ok::<SessionView, Seq<char>>(l.client.sessions[contact]),
    );
    assert(back.0.client.sessions =~= l.client.sessions);
    assert(back.0.client =~= l.client);
}

/// The sweep drops an archive older than a day, keeps every other, and touches nothing else.
pub proof fn the_sweep_drops_only_old_archives(l: LifeView, k: Seq<char>, now: u64)
    requires
        l.archives.contains_key(k),
        l.archive_times.contains_key(k),
    ensures
        archives_swept(l, now).archives.contains_key(k) <==> clock::secs(now)
            <= l.archive_times[k] + ARCHIVE_GC_AGE_SECONDS,
        archives_swept(l, now).archives.contains_key(k) ==> archives_swept(l, now).archives[k]
            == l.archives[k],
        archives_swept(l, now).client == l.client,
{
}

/// Of a forgotten device nothing is left but what was processed; every other device keeps what is
/// known of it.
pub proof fn nothing_is_left_of_a_forgotten_device(
    l: LifeView,
    contact: Seq<char>,
    other: Seq<char>,
)
    requires
        other != contact,
    ensures
        ({
            let n = contact_forgotten(l, contact);
            &&& !n.client.sessions.contains_key(contact)
            &&& !n.archives.contains_key(contact)
            &&& !n.archive_times.contains_key(contact)
            &&& !n.prekeys.contains_key(contact)
            &&& !n.healing.records.contains_key(contact)
            &&& !n.deferred.contains_key(contact)
            &&& n.ack == l.ack
            &&& str_map::lookup(n.client.sessions, other) == str_map::lookup(
                l.client.sessions,
                other,
            )
            &&& str_map::lookup(n.archives, other) == str_map::lookup(l.archives, other)
            &&& str_map::lookup(n.prekeys, other) == str_map::lookup(l.prekeys, other)
            &&& str_map::lookup(n.healing.records, other) == str_map::lookup(
                l.healing.records,
                other,
            )
            &&& str_map::lookup(n.deferred, other) == str_map::lookup(l.deferred, other)
        }),
{
}

/// With an engine that reads back the sessions it wrote, the exported record of a held session is
/// imported under the same contact, in either way of importing, by a manager of the same local
/// identity or of none yet, as the same session.
pub proof fn an_exported_session_is_imported<E: CryptoEngine, R: CryptoEngine>(
    engine: &E,
    reader: &R,
    l: LifeView,
    other: LifeView,
    contact: Seq<char>,
    record: Seq<u8>,
    next: LifeView,
    result: Result<(), Seq<char>>,
)
    requires
        engine::keeps_sessions(engine, reader),
        exported(engine, l, contact, Ok(record)),
        double_ratchet::identity_mismatch(
            l.client.sessions[contact],
            contact,
            other.client.local_user_id,
        ) is None,
        import_may(reader, other, contact, record, next, result) || import_binary_may(
            reader,
            other,
            contact,
            record,
            next,
            result,
        ),
    ensures
        result is Ok,
        str_map::lookup(next.client.sessions, contact) == str_map::lookup(
            l.client.sessions,
            contact,
        ),
        next == (LifeView { client: next.client, ..other }),
{
    let s = l.client.sessions[contact];
    assert(engine::said_encode_session(engine, s, Ok::<Seq<u8>, Seq<char>>(record)));
    if import_may(reader, other, contact, record, next, result) {
        let read = choose|read: Result<SessionView, Seq<char>>| #[trigger]
            read_may(reader, record, read) && (next, result) == imported(other, contact, read);
        let d = choose|d: Result<SessionView, UnreadableView>| #[trigger]
            engine::said_decode_session(reader, record, d) && read == any_record(d, read);
        assert(d == Ok::<SessionView, UnreadableView>(s));
    } else {
        let d = choose|d: Result<SessionView, UnreadableView>| #[trigger]
            engine::said_decode_session(reader, record, d) && (next, result) == imported(
                other,
                contact,
                binary_record(d),
            );
        assert(d == Ok::<SessionView, UnreadableView>(s));
    }
}

/// With an engine that reads back the sessions it wrote, the record of a session of `contact` made
/// by the non-empty identity `local` is taken under `as_contact` if and only if that is its contact
/// and the importing manager goes by the same identity or by none yet. Any other import is refused
/// with an error that names the mismatch, and no session appears or goes.
pub proof fn a_record_is_taken_by_its_own_only<E: CryptoEngine, R: CryptoEngine>(
    engine: &E,
    reader: &R,
    l: LifeView,
    contact: Seq<char>,
    local: Seq<char>,
    record: Seq<u8>,
    other: LifeView,
    as_contact: Seq<char>,
    next: LifeView,
    result: Result<(), Seq<char>>,
)
    requires
        engine::keeps_sessions(engine, reader),
        exported(engine, l, contact, Ok(record)),
        l.client.sessions[contact].contact_id == contact,
        l.client.sessions[contact].local_user_id == local,
        local.len() > 0,
        import_may(reader, other, as_contact, record, next, result) || import_binary_may(
            reader,
            other,
            as_contact,
            record,
            next,
            result,
        ),
    ensures
        if as_contact == contact && (other.client.local_user_id == local
            || other.client.local_user_id.len() == 0) {
            &&& result is Ok
            &&& next.client.sessions.contains_key(as_contact)
            &&& next.client.sessions[as_contact] == l.client.sessions[contact]
        } else {
            &&& result matches Err(e) && "session identity mismatch: "@.is_prefix_of(e)
            &&& next == other
        },
{
    let s = l.client.sessions[contact];
    assert(engine::said_encode_session(engine, s, Ok::<Seq<u8>, Seq<char>>(record)));
    if import_may(reader, other, as_contact, record, next, result) {
        let read = choose|read: Result<SessionView, Seq<char>>| #[trigger]
            read_may(reader, record, read) && (next, result) == imported(other, as_contact, read);
        let d = choose|d: Result<SessionView, UnreadableView>| #[trigger]
            engine::said_decode_session(reader, record, d) && read == any_record(d, read);
        assert(d == Ok::<SessionView, UnreadableView>(s));
    } else {
        let d = choose|d: Result<SessionView, UnreadableView>| #[trigger]
            engine::said_decode_session(reader, record, d) && (next, result) == imported(
                other,
                as_contact,
                binary_record(d),
            );
        assert(d == Ok::<SessionView, UnreadableView>(s));
    }
    double_ratchet::a_mismatch_names_itself(s, as_contact, other.client.local_user_id);
}

/// Bytes the engine reads as no session are taken by neither import, and change nothing; the binary
/// import asks for no other form of them.
pub proof fn bytes_of_no_session_are_refused<E: CryptoEngine>(
    engine: &E,
    l: LifeView,
    contact: Seq<char>,
    data: Seq<u8>,
    next: LifeView,
    result: Result<(), Seq<char>>,
)
    requires
        forall|d: Result<SessionView, UnreadableView>| #[trigger]
            engine::said_decode_session(engine, data, d) ==> d is Err,
        import_binary_may(engine, l, contact, data, next, result) || (import_may(
            engine,
            l,
            contact,
            data,
            next,
            result,
        ) && forall|read: Result<SessionView, Seq<char>>| #[trigger]
            engine::said_decode_legacy_session(engine, data, read) ==> read is Err),
    ensures
        result is Err,
        next == l,
{
    if import_binary_may(engine, l, contact, data, next, result) {
        let d = choose|d: Result<SessionView, UnreadableView>| #[trigger]
            engine::said_decode_session(engine, data, d) && (next, result) == imported(
                l,
                contact,
                binary_record(d),
            );
        assert(d is Err);
    } else {
        let read = choose|read: Result<SessionView, Seq<char>>| #[trigger]
            read_may(engine, data, read) && (next, result) == imported(l, contact, read);
        let d = choose|d: Result<SessionView, UnreadableView>| #[trigger]
            engine::said_decode_session(engine, data, d) && read == any_record(d, read) && (
            d matches Err(UnreadableView::Legacy(e)) ==> engine::said_decode_legacy_session(
                engine,
                data,
                read,
            ));
        assert(d is Err);
        assert(read is Err);
    }
}

/// With an engine that reads back the sessions it wrote, a session that was archived is restored:
/// the same session is held again, everything else the client has is as it was, and the archive is
/// still there. Without an archive nothing is restored.
pub proof fn an_archive_is_restored<E: CryptoEngine>(
    engine: &E,
    l: LifeView,
    contact: Seq<char>,
    now: u64,
    away: LifeView,
    actions: Seq<ActionView>,
    back: LifeView,
    result: Result<(), Seq<char>>,
)
    requires
        engine::keeps_sessions(engine, engine),
        l.client.sessions.contains_key(contact),
        double_ratchet::identity_mismatch(
            l.client.sessions[contact],
            contact,
            l.client.local_user_id,
        ) is None,
        archive_may(engine, l, contact, now, away, actions),
        actions.len() > 0,
        restore_may(engine, away, contact, back, result),
    ensures
        !away.client.sessions.contains_key(contact),
        result is Ok,
        back.client == l.client,
        back.archives == away.archives,
        back.archives.contains_key(contact),
{
    let x = choose|x: Result<Seq<u8>, Seq<char>>| #[trigger]
        exported(engine, l, contact, x) && (away, actions) == archived(l, contact, x, now);
    let record = x->Ok_0;
    assert(away.archives[contact] == record);
    an_exported_session_is_imported(engine, engine, l, away, contact, record, back, result);
    assert(back.client.sessions[contact] == l.client.sessions[contact]);
    a_refused_record_changes_nothing(engine, away, contact, record, back, result);
    let read = choose|read: Result<SessionView, Seq<char>>| #[trigger]
        read_may(engine, record, read) && (back, result) == imported(away, contact, read);
    assert(back.client.sessions =~= l.client.sessions);
    assert(back.client =~= l.client);
}

/// With an engine that reads back the states it wrote, the exported coordination state is what is
/// known after it is imported, whatever was known before: the openings that were in flight, the
/// archives, the prekeys last seen, the pinned identities and the heals in progress.
pub proof fn an_exported_state_is_imported<E: CryptoEngine, R: CryptoEngine>(
    engine: &E,
    reader: &R,
    l: LifeView,
    locks: Seq<Seq<char>>,
    record: Seq<u8>,
    other: LifeView,
    now: u64,
    next: LifeView,
    result: Result<Seq<Seq<char>>, Seq<char>>,
)
    requires
        engine::keeps_states(engine, reader),
        healing_queue::keyed(l.healing),
        state_export_may(engine, l, locks, Ok(record)),
        state_import_may(reader, other, record, now, next, result),
    ensures
        result == Ok::<Seq<Seq<char>>, Seq<char>>(locks),
        next.archives == l.archives,
        next.archive_times == l.archive_times,
        next.prekeys == l.prekeys,
        next.pins == l.pins,
        next.healing.records == l.healing.records,
        next.client == other.client,
{
    let s = choose|s: StateView|
        records_state(s, l, locks) && #[trigger] engine::said_encode_state(
            engine,
            s,
            Ok::<Seq<u8>, Seq<char>>(record),
        );
    let d = choose|d: Result<StateView, Seq<char>>| #[trigger]
        engine::said_decode_state(reader, record, d) && (next, result) == state_decoded(
            other,
            d,
            now,
        );
    assert(d == Ok::<StateView, Seq<char>>(s));
    a_loaded_state_is_the_state_recorded(s, l, locks, other, now);
}

proof fn pairs_in_any_order<V>(
    ps: Seq<(Seq<char>, V)>,
    qs: Seq<(Seq<char>, V)>,
    m: Map<Seq<char>, V>,
)
    requires
        lists_pairs(ps, m),
        lists_pairs(qs, m),
    ensures
        state::same_entries(ps, qs),
{
    let f = |k: Seq<char>| (k, m[k]);
    let a = choose|order: Seq<Seq<char>>| #[trigger]
        str_map::names_keys(order, m) && ps == order.map_values(|k: Seq<char>| (k, m[k]));
    let b = choose|order: Seq<Seq<char>>| #[trigger]
        str_map::names_keys(order, m) && qs == order.map_values(|k: Seq<char>| (k, m[k]));
    assert(ps =~= a.map_values(f));
    assert(qs =~= b.map_values(f));
    state::listed_in_any_order(a, b, f, |x: (Seq<char>, V)| x.0);
}

/// Two records of one coordination state, with the same openings in flight, list the same.
pub proof fn records_of_one_state_list_the_same(
    s: StateView,
    t: StateView,
    l: LifeView,
    locks: Seq<Seq<char>>,
    others: Seq<Seq<char>>,
)
    requires
        healing_queue::keyed(l.healing),
        records_state(s, l, locks),
        records_state(t, l, others),
        locks.no_duplicates(),
        others.no_duplicates(),
        forall|k: Seq<char>| #[trigger] locks.contains(k) <==> others.contains(k),
    ensures
        state::same_content(s, t),
{
    pairs_in_any_order(s.archives, t.archives, l.archives);
    pairs_in_any_order(s.archive_timestamps, t.archive_timestamps, l.archive_times);
    pairs_in_any_order(s.prekey_tracker, t.prekey_tracker, l.prekeys);
    pairs_in_any_order(s.hybrid_pins, t.hybrid_pins, l.pins);
    let q = l.healing;
    let f = |k: Seq<char>| q.records[k];
    let a = choose|order: Seq<Seq<char>>| #[trigger]
        str_map::names_keys(order, q.records) && s.healing_records == order.map_values(
            |k: Seq<char>| q.records[k],
        );
    let b = choose|order: Seq<Seq<char>>| #[trigger]
        str_map::names_keys(order, q.records) && t.healing_records == order.map_values(
            |k: Seq<char>| q.records[k],
        );
    assert(s.healing_records =~= a.map_values(f));
    assert(t.healing_records =~= b.map_values(f));
    assert forall|k: Seq<char>| a.contains(k) implies (#[trigger] f(k)).contact_id == k by {
        assert(q.records.contains_key(k));
    }
    state::listed_in_any_order(a, b, f, |x: HealRec| x.contact_id);
    state::listed_in_any_order(
        locks,
        others,
        |k: Seq<char>| k,
        |k: Seq<char>| k,
    );
    assert(locks.map_values(|k: Seq<char>| k) =~= locks);
    assert(others.map_values(|k: Seq<char>| k) =~= others);
}

/// The exported coordination state does not grow with the messages that were processed: what may be
/// exported after any of them is marked is what may be exported before.
pub proof fn processed_messages_do_not_grow_the_record<E: CryptoEngine>(
    engine: &E,
    l: LifeView,
    locks: Seq<Seq<char>>,
    id: Seq<char>,
    now: u64,
    reply: Result<Seq<u8>, Seq<char>>,
)
    ensures
        state_export_may(
            engine,
            LifeView { ack: ack_store::ack_mark(l.ack, id, now).0, ..l },
            locks,
            reply,
        ) <==> state_export_may(engine, l, locks, reply),
{
    let marked = LifeView { ack: ack_store::ack_mark(l.ack, id, now).0, ..l };
    assert(forall|s: StateView| records_state(s, marked, locks) <==> records_state(s, l, locks));
}

/// With engines of which one opens what the other seals, what was encrypted on one side decrypts on
/// the other: the plaintext comes out, unless the session cannot be recorded, and the session after
/// it is held.
pub proof fn what_was_encrypted_decrypts<E: CryptoEngine, R: CryptoEngine>(
    engine: &E,
    reader: &R,
    ours: LifeView,
    to: Seq<char>,
    plaintext: Seq<u8>,
    sent: LifeView,
    sealed: EncryptResultView,
    theirs: LifeView,
    from: Seq<char>,
    received: LifeView,
    result: Result<DecryptResultView, Seq<char>>,
)
    requires
        ours.client.sessions.contains_key(to),
        theirs.client.sessions.contains_key(from),
        engine::opens_what_is_sealed(
            engine,
            reader,
            ours.client.sessions[to],
            theirs.client.sessions[from],
        ),
        encrypt_may(engine, ours, to, plaintext, sent, Ok(sealed)),
        decrypt_may(reader, theirs, from, sealed.message, received, result),
    ensures
        sealed.message.dh_public_key.len() == 32,
        received.client.sessions.contains_key(from),
        match result {
            Ok(r) => r.plaintext == plaintext,
            Err(e) => exported(reader, received, from, Err(e)),
        },
{
    let s = ours.client.sessions[to];
    let t = theirs.client.sessions[from];
    let (c, x) = choose|
        c: Result<EncryptedView, Seq<char>>,
        x: Result<Seq<u8>, Seq<char>>,
    | #[trigger]
        encrypt_outcome(
            engine,
            ours,
            to,
            s,
            plaintext,
            c,
            x,
            sent,
            Ok::<EncryptResultView, Seq<char>>(sealed),
        );
    engine::sealed_keys_have_their_length(engine, s, plaintext, c->Ok_0);
    let (d, y) = choose|
        d: Result<DecryptedView, Seq<char>>,
        y: Result<Seq<u8>, Seq<char>>,
    | #[trigger]
        decrypt_outcome(reader, theirs, from, t, sealed.message, d, y, received, result);
    assert(engine::said_encrypt(
        engine,
        s,
        plaintext,
        Ok::<EncryptedView, Seq<char>>(c->Ok_0),
    ));
    assert(engine::said_decrypt(reader, t, c->Ok_0.message, d));
}

/// With an engine whose ratchet opens a message once, a payload that was read is refused when it
/// comes again, and the refusal changes nothing.
pub proof fn a_payload_is_read_once<E: CryptoEngine>(
    engine: &E,
    l: LifeView,
    contact: Seq<char>,
    payload: Seq<u8>,
    mid: LifeView,
    first: DecryptResultView,
    next: LifeView,
    again: Result<DecryptResultView, Seq<char>>,
)
    requires
        engine::opens_once(engine),
        decrypt_wire_may(engine, l, contact, payload, mid, Ok(first)),
        decrypt_wire_may(engine, mid, contact, payload, next, again),
    ensures
        first.actions.len() == 1,
        again is Err,
        next == mid,
{
    let m = wire_message_of(payload)->Ok_0;
    let s = l.client.sessions[contact];
    let (d, x) = choose|
        d: Result<DecryptedView, Seq<char>>,
        x: Result<Seq<u8>, Seq<char>>,
    | #[trigger]
        decrypt_outcome(
            engine,
            l,
            contact,
            s,
            m,
            d,
            x,
            mid,
            Ok::<DecryptResultView, Seq<char>>(first),
        );
    let after = engine::read_on(s, d->Ok_0);
    assert(mid.client.sessions[contact] == after);
    let (e, y) = choose|
        e: Result<DecryptedView, Seq<char>>,
        y: Result<Seq<u8>, Seq<char>>,
    | #[trigger]
        decrypt_outcome(engine, mid, contact, after, m, e, y, next, again);
    assert(engine::said_decrypt(engine, s, m, Ok::<DecryptedView, Seq<char>>(d->Ok_0)));
    assert(engine::said_decrypt(engine, after, m, e));
}

/// A message that was encrypted is what the engine made of the text on the session held with that
/// device; the session goes on with the ratchet it left, and its record is saved as it is then. No
/// other session and nothing else is touched.
pub proof fn an_encrypted_message_turns_its_session<E: CryptoEngine>(
    engine: &E,
    l: LifeView,
    contact: Seq<char>,
    plaintext: Seq<u8>,
    next: LifeView,
    result: Result<EncryptResultView, Seq<char>>,
) -> (x: EncryptedView)
    requires
        encrypt_may(engine, l, contact, plaintext, next, result),
        result is Ok,
    ensures
        l.client.sessions.contains_key(contact),
        engine::said_encrypt(engine, l.client.sessions[contact], plaintext, Ok(x)),
        result->Ok_0.message == x.message,
        next.client.sessions == l.client.sessions.insert(
            contact,
            SessionView { ratchet: x.ratchet, ..l.client.sessions[contact] },
        ),
        next == (LifeView {
            client: ClientView { sessions: next.client.sessions, ..l.client },
            ..l
        }),
        result->Ok_0.actions.len() == 1,
        result->Ok_0.actions[0] matches ActionView::SaveToSecureStore { slot, data } && slot == (
        SlotView::Session { contact_id: contact }) && engine::said_encode_session(
            engine,
            next.client.sessions[contact],
            Ok(data),
        ),
{
    let s = l.client.sessions[contact];
    let (c, y) = choose|
        c: Result<EncryptedView, Seq<char>>,
        y: Result<Seq<u8>, Seq<char>>,
    | #[trigger]
        encrypt_outcome(engine, l, contact, s, plaintext, c, y, next, result);
    c->Ok_0
}

/// A message that was decrypted is what the engine read of it on the session held with that device;
/// the session goes on with the ratchet it left and without the header of a first flight, and its
/// record is saved as it is then. No other session and nothing else is touched.
pub proof fn a_decrypted_message_turns_its_session<E: CryptoEngine>(
    engine: &E,
    l: LifeView,
    contact: Seq<char>,
    m: RatchetMessageView,
    next: LifeView,
    result: Result<DecryptResultView, Seq<char>>,
) -> (x: DecryptedView)
    requires
        decrypt_may(engine, l, contact, m, next, result),
        result is Ok,
    ensures
        l.client.sessions.contains_key(contact),
        engine::said_decrypt(engine, l.client.sessions[contact], m, Ok(x)),
        result->Ok_0.plaintext == x.plaintext,
        next.client.sessions == l.client.sessions.insert(
            contact,
            SessionView { ratchet: x.ratchet, prekey_header: None, ..l.client.sessions[contact] },
        ),
        next == (LifeView {
            client: ClientView { sessions: next.client.sessions, ..l.client },
            ..l
        }),
        result->Ok_0.actions.len() == 1,
        result->Ok_0.actions[0] matches ActionView::SaveToSecureStore { slot, data } && slot == (
        SlotView::Session { contact_id: contact }) && engine::said_encode_session(
            engine,
            next.client.sessions[contact],
            Ok(data),
        ),
{
    let s = l.client.sessions[contact];
    let (d, y) = choose|
        d: Result<DecryptedView, Seq<char>>,
        y: Result<Seq<u8>, Seq<char>>,
    | #[trigger]
        decrypt_outcome(engine, l, contact, s, m, d, y, next, result);
    d->Ok_0
}

/// A contribution in waiting is mixed into the session of its device, with the secret that waits;
/// a classical session is strengthened by it, and any other stays of its kind. Only once the record
/// of that session is written is the contribution gone, here and from the store; where it cannot be
/// mixed or written that is told, and the contribution waits on.
pub proof fn a_contribution_is_applied_once_recorded<E: CryptoEngine>(
    engine: &E,
    l: LifeView,
    contact: Seq<char>,
    next: LifeView,
    actions: Seq<ActionView>,
)
    requires
        contribution_may(engine, l, contact, next, actions),
    ensures
        !l.deferred.contains_key(contact) ==> next == l && actions.len() == 0,
        next == (LifeView {
            client: ClientView { sessions: next.client.sessions, ..l.client },
            deferred: next.deferred,
            ..l
        }),
        next.client.sessions.remove(contact) == l.client.sessions.remove(contact),
        next.deferred == l.deferred || next.deferred == l.deferred.remove(contact),
        l.deferred.contains_key(contact) && !next.deferred.contains_key(contact) ==> {
            let before = l.client.sessions[contact];
            let after = next.client.sessions[contact];
            &&& l.client.sessions.contains_key(contact)
            &&& next.client.sessions.contains_key(contact)
            &&& engine::said_mix_pq_contribution(
                engine,
                before,
                l.deferred[contact].shared_secret,
                Ok(after.ratchet),
            )
            &&& after == (SessionView {
                ratchet: after.ratchet,
                pq_handshake: after.pq_handshake,
                ..before
            })
            &&& after.pq_handshake == (if before.pq_handshake is Classical {
                PqHandshake::DeferredV1
            } else {
                before.pq_handshake
            })
            &&& actions.len() >= 2
            &&& actions[0] matches ActionView::SaveToSecureStore { slot, data } && slot == (
            SlotView::Session { contact_id: contact }) && engine::said_encode_session(
                engine,
                after,
                Ok(data),
            )
            &&& actions[1] == (ActionView::SaveToSecureStore {
                slot: SlotView::PqDeferred { contact_id: contact },
                data: Seq::empty(),
            })
        },
        next.deferred.contains_key(contact) ==> actions.len() == 1 && actions[0] is NotifyError,
{
    if l.deferred.contains_key(contact) {
        let (m, x, entries, y) = choose|
            m: Result<Seq<u8>, Seq<char>>,
            x: Result<Seq<u8>, Seq<char>>,
            entries: Seq<(Seq<char>, DeferredView)>,
            y: Result<Seq<u8>, Seq<char>>,
        | #[trigger]
            contribution_outcome(
                engine,
                l,
                contact,
                l.deferred[contact].shared_secret,
                m,
                x,
                entries,
                y,
                next,
                actions,
            );
        assert(next.client.sessions.remove(contact) =~= l.client.sessions.remove(contact));
    }
}

/// Forgetting a device keeps the pinned identities, its own among them, and the own keys and ids;
/// and of every other archive the time it was made.
pub proof fn forgetting_keeps_pins_and_keys(l: LifeView, contact: Seq<char>, other: Seq<char>)
    ensures
        ({
            let next = contact_forgotten(l, contact);
            &&& next.pins == l.pins
            &&& next.client.keys == l.client.keys
            &&& next.client.local_user_id == l.client.local_user_id
            &&& next.my_user_id == l.my_user_id
            &&& other != contact ==> str_map::lookup(next.archive_times, other) == str_map::lookup(
                l.archive_times,
                other,
            )
        }),
{
}

/// A new id is taken by the device and by its client alike, and nothing else changes.
pub proof fn a_new_id_is_taken_everywhere(l: LifeView, user_id: Seq<char>)
    ensures
        renamed(l, user_id).my_user_id == user_id,
        renamed(l, user_id).client.local_user_id == user_id,
        renamed(l, user_id) == (LifeView {
            my_user_id: user_id,
            client: renamed(l, user_id).client,
            ..l
        }),
        renamed(l, user_id).client.sessions == l.client.sessions,
        renamed(l, user_id).client.keys == l.client.keys,
{
}

/// A record is filed as the session of the device it names, as it is, where the device and the user
/// are those it names; otherwise, or where it cannot be read, nothing changes.
pub proof fn a_record_is_filed_as_it_is(
    l: LifeView,
    contact: Seq<char>,
    d: Result<SessionView, Seq<char>>,
)
    ensures
        ({
            let (next, result) = imported(l, contact, d);
            let own = d matches Ok(s) && s.contact_id == contact && (s.local_user_id.len() == 0
                || l.client.local_user_id.len() == 0 || s.local_user_id
                == l.client.local_user_id);
            &&& result is Ok <==> own
            &&& own ==> next == (LifeView {
                client: ClientView {
                    sessions: l.client.sessions.insert(contact, d->Ok_0),
                    ..l.client
                },
                ..l
            })
            &&& !own ==> next == l
            &&& d matches Err(e) ==> result == Err::<(), Seq<char>>(e)
        }),
{
}

/// An archive that is loaded is kept as it is, without a time of its own, and no other is touched.
pub proof fn a_loaded_archive_is_kept(
    l: LifeView,
    contact: Seq<char>,
    data: Seq<u8>,
    now: u64,
    other: Seq<char>,
)
    ensures
        str_map::lookup(archive_kept(l, contact, data).archives, contact) == Some(data),
        archive_kept(l, contact, data).archive_times == l.archive_times,
        str_map::lookup(archive_recorded(l, contact, data, now).archives, contact) == Some(data),
        str_map::lookup(archive_recorded(l, contact, data, now).archive_times, contact) == Some(
            now / 1000,
        ),
        other != contact ==> str_map::lookup(archive_kept(l, contact, data).archives, other)
            == str_map::lookup(l.archives, other) && str_map::lookup(
            archive_recorded(l, contact, data, now).archives,
            other,
        ) == str_map::lookup(l.archives, other),
        archive_kept(l, contact, data).client == l.client,
        archive_recorded(l, contact, data, now).client == l.client,
{
}

/// Whenever a session is held and the engine seals, opens or mixes, and writes the session that is
/// left, a message is encrypted, a message is decrypted, and a contribution in waiting is applied.
pub proof fn what_the_engine_does_is_done<E: CryptoEngine>(
    engine: &E,
    l: LifeView,
    contact: Seq<char>,
    plaintext: Seq<u8>,
    a: LifeView,
    sealed: Result<EncryptResultView, Seq<char>>,
    m: RatchetMessageView,
    b: LifeView,
    opened: Result<DecryptResultView, Seq<char>>,
    c: LifeView,
    actions: Seq<ActionView>,
)
    requires
        l.client.sessions.contains_key(contact),
        forall|s: SessionView, r: Result<Seq<u8>, Seq<char>>| #[trigger]
            engine::said_encode_session(engine, s, r) ==> r is Ok,
        encrypt_may(engine, l, contact, plaintext, a, sealed),
        decrypt_may(engine, l, contact, m, b, opened),
        contribution_may(engine, l, contact, c, actions),
    ensures
        (forall|r: Result<EncryptedView, Seq<char>>| #[trigger]
            engine::said_encrypt(engine, l.client.sessions[contact], plaintext, r) ==> r is Ok)
            ==> sealed is Ok,
        (forall|r: Result<DecryptedView, Seq<char>>| #[trigger]
            engine::said_decrypt(engine, l.client.sessions[contact], m, r) ==> r is Ok)
            ==> opened is Ok,
        (forall|secret: Seq<u8>, r: Result<Seq<u8>, Seq<char>>| #[trigger]
            engine::said_mix_pq_contribution(engine, l.client.sessions[contact], secret, r)
                ==> r is Ok) ==> !c.deferred.contains_key(contact),
{
    let s = l.client.sessions[contact];
    let (e, y) = choose|
        e: Result<EncryptedView, Seq<char>>,
        y: Result<Seq<u8>, Seq<char>>,
    | #[trigger]
        encrypt_outcome(engine, l, contact, s, plaintext, e, y, a, sealed);
    assert(engine::said_encrypt(engine, s, plaintext, e));
    let (d, z) = choose|
        d: Result<DecryptedView, Seq<char>>,
        z: Result<Seq<u8>, Seq<char>>,
    | #[trigger]
        decrypt_outcome(engine, l, contact, s, m, d, z, b, opened);
    assert(engine::said_decrypt(engine, s, m, d));
    if l.deferred.contains_key(contact) {
        let (w, x, entries, v) = choose|
            w: Result<Seq<u8>, Seq<char>>,
            x: Result<Seq<u8>, Seq<char>>,
            entries: Seq<(Seq<char>, DeferredView)>,
            v: Result<Seq<u8>, Seq<char>>,
        | #[trigger]
            contribution_outcome(
                engine,
                l,
                contact,
                l.deferred[contact].shared_secret,
                w,
                x,
                entries,
                v,
                c,
                actions,
            );
        assert(engine::said_mix_pq_contribution(
            engine,
            s,
            l.deferred[contact].shared_secret,
            w,
        ));
    }
}

} // verus!
