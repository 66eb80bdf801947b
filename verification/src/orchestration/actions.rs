//! What the core asks the platform to do, and what the platform reports to the core.
//!
//! The core takes events, decides, and returns a list of actions. The platform executes each action
//! and, where there is a result, hands it back as an `IncomingEvent`.

use vstd::prelude::*;

use crate::orchestration::session_machine::TearDownCause;

verus! {

/// Which durable slot a `SaveToSecureStore` payload belongs in.
///
/// The core names *what* the bytes are; the platform names *where* they go.
#[derive(Debug, Clone, PartialEq, Eq)]
pub enum SecureStoreSlot {
    /// Double Ratchet state for one contact. Empty payload means delete.
    Session { contact_id: String },
    /// A terminated session, kept for late-arriving messages.
    SessionArchive { contact_id: String },
    /// Deferred ML-KEM contribution for one contact. Empty payload means delete.
    PqDeferred { contact_id: String },
    /// Whole `PQContributionManager` snapshot.
    KyberSessionState,
    /// Secret half of a committed ML-KEM signed prekey.
    KyberSignedPrekey { key_id: u32 },
    /// Orchestrator coordination state.
    OrchestratorState,
}

/// A `SecureStoreSlot` by what its fields hold.
pub enum SlotView {
    Session { contact_id: Seq<char> },
    SessionArchive { contact_id: Seq<char> },
    PqDeferred { contact_id: Seq<char> },
    KyberSessionState,
    KyberSignedPrekey { key_id: u32 },
    OrchestratorState,
}

impl DeepView for SecureStoreSlot {
    type V = SlotView;

    open spec fn deep_view(&self) -> SlotView {
        match self {
            SecureStoreSlot::Session { contact_id } => SlotView::Session {
                contact_id: contact_id@,
            },
            SecureStoreSlot::SessionArchive { contact_id } => SlotView::SessionArchive {
                contact_id: contact_id@,
            },
            SecureStoreSlot::PqDeferred { contact_id } => SlotView::PqDeferred {
                contact_id: contact_id@,
            },
            SecureStoreSlot::KyberSessionState => SlotView::KyberSessionState,
            SecureStoreSlot::KyberSignedPrekey { key_id } => SlotView::KyberSignedPrekey {
                key_id: *key_id,
            },
            SecureStoreSlot::OrchestratorState => SlotView::OrchestratorState,
        }
    }
}

/// Delivery / read receipt status.
#[derive(Debug, Clone, Copy, PartialEq, Eq, Structural)]
pub enum ReceiptStatus {
    Sent,
    Delivered,
    Read,
    Failed,
}

/// One operation the platform must carry out.
#[derive(Debug, Clone, PartialEq, Eq)]
pub enum Action {
    DecryptMessage { contact_id: String, ciphertext: Vec<u8> },
    EncryptMessage { contact_id: String, plaintext: Vec<u8> },
    InitSession { contact_id: String, bundle_json: String },
    ApplyPQContribution { contact_id: String, kem_ss: Vec<u8> },
    ArchiveSession { contact_id: String },
    /// A message has been decrypted; the raw plaintext, without any lossy conversion.
    MessageDecrypted { contact_id: String, message_id: String, plaintext: Vec<u8> },
    /// Binary payload decrypted from a CALL_SIGNAL envelope (content_type = 12).
    CallSignalDecrypted { contact_id: String, message_id: String, proto_bytes: Vec<u8> },
    /// Decryption failed on message 0; the session needs healing. `role` is `"Initiator"` (the
    /// higher id) or `"Responder"`.
    SessionHealNeeded { contact_id: String, role: String },
    /// A heal was suppressed by the cooldown. The platform must NOT acknowledge the message.
    HealSuppressed { contact_id: String, retry_after_ms: u64 },
    /// A teardown was suppressed by the cooldown and is owed: it goes out once the cooldown clears.
    /// The platform must NOT acknowledge the message.
    EndSessionSuppressed { contact_id: String, retry_after_ms: u64 },
    /// A teardown is not needed: the peer tore this ratchet down itself. Nothing is owed.
    EndSessionNotNeeded { contact_id: String },
    /// A message arrived while session init was in flight. It is queued inside the core.
    MessageQueuedPendingInit { contact_id: String, queued_count: u32 },
    /// A message is held behind our own unanswered announcement. The platform keeps the envelope
    /// and must NOT acknowledge it.
    HeldPendingAck { contact_id: String },
    /// The confirm gate is down: process the held message again.
    ReplayHeld { message_id: String },
    /// The held message belongs to a handshake that concluded while it waited.
    HeldSuperseded { message_id: String },
    /// The message was processed before.
    DuplicateDropped { message_id: String },
    /// An opening asked for by the platform waits; a timer of the core's re-asks.
    OpenDeferred { contact_id: String, retry_after_ms: u64 },
    /// Open an announced session with this device.
    OpenSession { contact_id: String },
    /// The session came back while the opening waited.
    OpenNotNeeded { contact_id: String },
    /// Send the SESSION_RESET_INIT to this device again.
    ResendSri { contact_id: String },
    /// The peer never answered our announcement; stop waiting for it.
    OpeningGaveUp { contact_id: String },
    /// One more heal attempt may be made.
    HealAttemptAllowed { contact_id: String, attempt: u32 },
    /// No heal attempt is left.
    HealExhausted { contact_id: String },
    /// Apply the SESSION_RESET_INIT that arrived.
    ApplyResetInit { contact_id: String },
    /// Drop the SESSION_RESET_INIT that arrived: it was applied before (`redelivery`), or it was
    /// sent before the session now held.
    ResetInitSuperseded { contact_id: String, redelivery: bool },
    /// Write `data` into `slot`. An empty `data` is a delete sentinel for the slots whose doc says
    /// so.
    SaveToSecureStore { slot: SecureStoreSlot, data: Vec<u8> },
    PersistMessage { message_json: String },
    /// Persist an ACK deduplication record across app restarts.
    PersistAck { message_id: String, timestamp: u64 },
    /// Delete ACK records older than `cutoff_ts` (unix seconds).
    PruneAckStore { cutoff_ts: u64 },
    MarkMessageDelivered { message_id: String },
    FetchPublicKeyBundle { user_id: String },
    SendEncryptedMessage {
        to: String,
        payload: Vec<u8>,
        /// Server-assigned message UUID.
        message_id: String,
        /// Content-type discriminator: 0 = regular E2EE message; 12 = CALL_SIGNAL.
        content_type: u8,
    },
    SendReceipt { message_id: String, status: ReceiptStatus },
    SendEndSession { contact_id: String },
    NotifyNewMessage { chat_id: String, preview: String },
    NotifySessionCreated { contact_id: String },
    NotifyError { code: String, message: String },
    /// Query the persistent ACK store for `message_id`; answered by `IncomingEvent::AckDbResult`.
    CheckAckInDb { message_id: String },
    ScheduleTimer { timer_id: String, delay_ms: u64 },
    CancelTimer { timer_id: String },
    /// Encrypt a lightweight heartbeat payload and send it over the existing session.
    SendHeartbeat { contact_id: String },
    /// Tell all linked devices that the session with `contact_id` was reset.
    NotifyLinkedDevicesOfSessionReset { contact_id: String },
    /// The session was archived and removed: store `archive_bytes`, then delete the hot session.
    SessionTerminated { contact_id: String, archive_bytes: Vec<u8> },
}

/// An `Action` by what its fields hold.
pub enum ActionView {
    DecryptMessage { contact_id: Seq<char>, ciphertext: Seq<u8> },
    EncryptMessage { contact_id: Seq<char>, plaintext: Seq<u8> },
    InitSession { contact_id: Seq<char>, bundle_json: Seq<char> },
    ApplyPQContribution { contact_id: Seq<char>, kem_ss: Seq<u8> },
    ArchiveSession { contact_id: Seq<char> },
    MessageDecrypted { contact_id: Seq<char>, message_id: Seq<char>, plaintext: Seq<u8> },
    CallSignalDecrypted { contact_id: Seq<char>, message_id: Seq<char>, proto_bytes: Seq<u8> },
    SessionHealNeeded { contact_id: Seq<char>, role: Seq<char> },
    HealSuppressed { contact_id: Seq<char>, retry_after_ms: u64 },
    EndSessionSuppressed { contact_id: Seq<char>, retry_after_ms: u64 },
    EndSessionNotNeeded { contact_id: Seq<char> },
    MessageQueuedPendingInit { contact_id: Seq<char>, queued_count: u32 },
    HeldPendingAck { contact_id: Seq<char> },
    ReplayHeld { message_id: Seq<char> },
    HeldSuperseded { message_id: Seq<char> },
    DuplicateDropped { message_id: Seq<char> },
    OpenDeferred { contact_id: Seq<char>, retry_after_ms: u64 },
    OpenSession { contact_id: Seq<char> },
    OpenNotNeeded { contact_id: Seq<char> },
    ResendSri { contact_id: Seq<char> },
    OpeningGaveUp { contact_id: Seq<char> },
    HealAttemptAllowed { contact_id: Seq<char>, attempt: u32 },
    HealExhausted { contact_id: Seq<char> },
    ApplyResetInit { contact_id: Seq<char> },
    ResetInitSuperseded { contact_id: Seq<char>, redelivery: bool },
    SaveToSecureStore { slot: SlotView, data: Seq<u8> },
    PersistMessage { message_json: Seq<char> },
    PersistAck { message_id: Seq<char>, timestamp: u64 },
    PruneAckStore { cutoff_ts: u64 },
    MarkMessageDelivered { message_id: Seq<char> },
    FetchPublicKeyBundle { user_id: Seq<char> },
    SendEncryptedMessage {
        to: Seq<char>,
        payload: Seq<u8>,
        message_id: Seq<char>,
        content_type: u8,
    },
    SendReceipt { message_id: Seq<char>, status: ReceiptStatus },
    SendEndSession { contact_id: Seq<char> },
    NotifyNewMessage { chat_id: Seq<char>, preview: Seq<char> },
    NotifySessionCreated { contact_id: Seq<char> },
    NotifyError { code: Seq<char>, message: Seq<char> },
    CheckAckInDb { message_id: Seq<char> },
    ScheduleTimer { timer_id: Seq<char>, delay_ms: u64 },
    CancelTimer { timer_id: Seq<char> },
    SendHeartbeat { contact_id: Seq<char> },
    NotifyLinkedDevicesOfSessionReset { contact_id: Seq<char> },
    SessionTerminated { contact_id: Seq<char>, archive_bytes: Seq<u8> },
}

impl DeepView for Action {
    type V = ActionView;

    open spec fn deep_view(&self) -> ActionView {
        match self {
            Action::DecryptMessage { contact_id, ciphertext } => ActionView::DecryptMessage {
                contact_id: contact_id@,
                ciphertext: ciphertext@,
            },
            Action::EncryptMessage { contact_id, plaintext } => ActionView::EncryptMessage {
                contact_id: contact_id@,
                plaintext: plaintext@,
            },
            Action::InitSession { contact_id, bundle_json } => ActionView::InitSession {
                contact_id: contact_id@,
                bundle_json: bundle_json@,
            },
            Action::ApplyPQContribution { contact_id, kem_ss } => ActionView::ApplyPQContribution {
                contact_id: contact_id@,
                kem_ss: kem_ss@,
            },
            Action::ArchiveSession { contact_id } => ActionView::ArchiveSession {
                contact_id: contact_id@,
            },
            Action::MessageDecrypted {
                contact_id,
                message_id,
                plaintext,
            } => ActionView::MessageDecrypted {
                contact_id: contact_id@,
                message_id: message_id@,
                plaintext: plaintext@,
            },
            Action::CallSignalDecrypted {
                contact_id,
                message_id,
                proto_bytes,
            } => ActionView::CallSignalDecrypted {
                contact_id: contact_id@,
                message_id: message_id@,
                proto_bytes: proto_bytes@,
            },
            Action::SessionHealNeeded { contact_id, role } => ActionView::SessionHealNeeded {
                contact_id: contact_id@,
                role: role@,
            },
            Action::HealSuppressed { contact_id, retry_after_ms } => ActionView::HealSuppressed {
                contact_id: contact_id@,
                retry_after_ms: *retry_after_ms,
            },
            Action::EndSessionSuppressed {
                contact_id,
                retry_after_ms,
            } => ActionView::EndSessionSuppressed {
                contact_id: contact_id@,
                retry_after_ms: *retry_after_ms,
            },
            Action::EndSessionNotNeeded { contact_id } => ActionView::EndSessionNotNeeded {
                contact_id: contact_id@,
            },
            Action::MessageQueuedPendingInit {
                contact_id,
                queued_count,
            } => ActionView::MessageQueuedPendingInit {
                contact_id: contact_id@,
                queued_count: *queued_count,
            },
            Action::HeldPendingAck { contact_id } => ActionView::HeldPendingAck {
                contact_id: contact_id@,
            },
            Action::ReplayHeld { message_id } => ActionView::ReplayHeld {
                message_id: message_id@,
            },
            Action::HeldSuperseded { message_id } => ActionView::HeldSuperseded {
                message_id: message_id@,
            },
            Action::DuplicateDropped { message_id } => ActionView::DuplicateDropped {
                message_id: message_id@,
            },
            Action::OpenDeferred { contact_id, retry_after_ms } => ActionView::OpenDeferred {
                contact_id: contact_id@,
                retry_after_ms: *retry_after_ms,
            },
            Action::OpenSession { contact_id } => ActionView::OpenSession {
                contact_id: contact_id@,
            },
            Action::OpenNotNeeded { contact_id } => ActionView::OpenNotNeeded {
                contact_id: contact_id@,
            },
            Action::ResendSri { contact_id } => ActionView::ResendSri {
                contact_id: contact_id@,
            },
            Action::OpeningGaveUp { contact_id } => ActionView::OpeningGaveUp {
                contact_id: contact_id@,
            },
            Action::HealAttemptAllowed { contact_id, attempt } => ActionView::HealAttemptAllowed {
                contact_id: contact_id@,
                attempt: *attempt,
            },
            Action::HealExhausted { contact_id } => ActionView::HealExhausted {
                contact_id: contact_id@,
            },
            Action::ApplyResetInit { contact_id } => ActionView::ApplyResetInit {
                contact_id: contact_id@,
            },
            Action::ResetInitSuperseded {
                contact_id,
                redelivery,
            } => ActionView::ResetInitSuperseded {
                contact_id: contact_id@,
                redelivery: *redelivery,
            },
            Action::SaveToSecureStore { slot, data } => ActionView::SaveToSecureStore {
                slot: slot.deep_view(),
                data: data@,
            },
            Action::PersistMessage { message_json } => ActionView::PersistMessage {
                message_json: message_json@,
            },
            Action::PersistAck { message_id, timestamp } => ActionView::PersistAck {
                message_id: message_id@,
                timestamp: *timestamp,
            },
            Action::PruneAckStore { cutoff_ts } => ActionView::PruneAckStore {
                cutoff_ts: *cutoff_ts,
            },
            Action::MarkMessageDelivered { message_id } => ActionView::MarkMessageDelivered {
                message_id: message_id@,
            },
            Action::FetchPublicKeyBundle { user_id } => ActionView::FetchPublicKeyBundle {
                user_id: user_id@,
            },
            Action::SendEncryptedMessage {
                to,
                payload,
                message_id,
                content_type,
            } => ActionView::SendEncryptedMessage {
                to: to@,
                payload: payload@,
                message_id: message_id@,
                content_type: *content_type,
            },
            Action::SendReceipt { message_id, status } => ActionView::SendReceipt {
                message_id: message_id@,
                status: *status,
            },
            Action::SendEndSession { contact_id } => ActionView::SendEndSession {
                contact_id: contact_id@,
            },
            Action::NotifyNewMessage { chat_id, preview } => ActionView::NotifyNewMessage {
                chat_id: chat_id@,
                preview: preview@,
            },
            Action::NotifySessionCreated { contact_id } => ActionView::NotifySessionCreated {
                contact_id: contact_id@,
            },
            Action::NotifyError { code, message } => ActionView::NotifyError {
                code: code@,
                message: message@,
            },
            Action::CheckAckInDb { message_id } => ActionView::CheckAckInDb {
                message_id: message_id@,
            },
            Action::ScheduleTimer { timer_id, delay_ms } => ActionView::ScheduleTimer {
                timer_id: timer_id@,
                delay_ms: *delay_ms,
            },
            Action::CancelTimer { timer_id } => ActionView::CancelTimer {
                timer_id: timer_id@,
            },
            Action::SendHeartbeat { contact_id } => ActionView::SendHeartbeat {
                contact_id: contact_id@,
            },
            Action::NotifyLinkedDevicesOfSessionReset {
                contact_id,
            } => ActionView::NotifyLinkedDevicesOfSessionReset {
                contact_id: contact_id@,
            },
            Action::SessionTerminated {
                contact_id,
                archive_bytes,
            } => ActionView::SessionTerminated {
                contact_id: contact_id@,
                archive_bytes: archive_bytes@,
            },
        }
    }
}

/// One thing the platform reports.
#[derive(Debug, Clone, PartialEq, Eq)]
pub enum IncomingEvent {
    MessageReceived {
        /// Server-assigned message UUID (used for ACK deduplication).
        message_id: String,
        from: String,
        data: Vec<u8>,
        msg_num: u32,
        /// KEM ciphertext (empty if there is none in this message).
        kem_ct: Vec<u8>,
        otpk_id: u32,
        /// `true` when this is a control message (e.g. END_SESSION).
        is_control: bool,
        /// 0 = regular E2EE message; 12 = CALL_SIGNAL.
        content_type: u8,
    },
    /// An outgoing regular message, to be encrypted and packed.
    OutgoingMessage {
        contact_id: String,
        message_id: String,
        plaintext: Vec<u8>,
        content_type: u8,
    },
    /// An outgoing call signal, to be encrypted opaquely and packed.
    OutgoingCallSignal { contact_id: String, message_id: String, proto_bytes: Vec<u8> },
    /// A session init finished on the platform. `session_data` may be empty if the session is
    /// already here.
    SessionInitCompleted { contact_id: String, session_data: Vec<u8> },
    AckReceived { message_id: String },
    /// Server returned a key bundle in response to `FetchPublicKeyBundle`.
    KeyBundleFetched { user_id: String, bundle_json: String },
    NetworkReconnected,
    AppLaunched,
    TimerFired { timer_id: String },
    /// The platform's answer to `Action::CheckAckInDb`.
    AckDbResult { message_id: String, is_processed: bool },
    /// A heartbeat message arrived from `contact_id`.
    HeartbeatReceived { contact_id: String, message_id: String, data: Vec<u8>, msg_num: u32 },
    /// The platform asks whether it may tear this ratchet down.
    TeardownRequested { contact_id: String, cause: TearDownCause },
    /// The platform has applied the peer's own teardown.
    PeerToreDown { contact_id: String },
    /// The platform is about to attempt a heal.
    HealAttempted { contact_id: String },
    /// The platform needs a session with this device after a teardown.
    ReopenRequested { contact_id: String },
    /// A SESSION_RESET_INIT went out to this device.
    SriAnnounced { contact_id: String },
    /// A SESSION_RESET_INIT arrived from this device.
    ResetInitArrived {
        contact_id: String,
        init_ephemeral: Vec<u8>,
        sent_at_s: u64,
        established_at_s: Option<u64>,
    },
    /// The peer acknowledged our announcement.
    PeerAcked { contact_id: String },
}

/// An `IncomingEvent` by what its fields hold.
pub enum EventView {
    MessageReceived {
        message_id: Seq<char>,
        from: Seq<char>,
        data: Seq<u8>,
        msg_num: u32,
        kem_ct: Seq<u8>,
        otpk_id: u32,
        is_control: bool,
        content_type: u8,
    },
    OutgoingMessage {
        contact_id: Seq<char>,
        message_id: Seq<char>,
        plaintext: Seq<u8>,
        content_type: u8,
    },
    OutgoingCallSignal { contact_id: Seq<char>, message_id: Seq<char>, proto_bytes: Seq<u8> },
    SessionInitCompleted { contact_id: Seq<char>, session_data: Seq<u8> },
    AckReceived { message_id: Seq<char> },
    KeyBundleFetched { user_id: Seq<char>, bundle_json: Seq<char> },
    NetworkReconnected,
    AppLaunched,
    TimerFired { timer_id: Seq<char> },
    AckDbResult { message_id: Seq<char>, is_processed: bool },
    HeartbeatReceived { contact_id: Seq<char>, message_id: Seq<char>, data: Seq<u8>, msg_num: u32 },
    TeardownRequested { contact_id: Seq<char>, cause: TearDownCause },
    PeerToreDown { contact_id: Seq<char> },
    HealAttempted { contact_id: Seq<char> },
    ReopenRequested { contact_id: Seq<char> },
    SriAnnounced { contact_id: Seq<char> },
    ResetInitArrived {
        contact_id: Seq<char>,
        init_ephemeral: Seq<u8>,
        sent_at_s: u64,
        established_at_s: Option<u64>,
    },
    PeerAcked { contact_id: Seq<char> },
}

impl DeepView for IncomingEvent {
    type V = EventView;

    open spec fn deep_view(&self) -> EventView {
        match self {
            IncomingEvent::MessageReceived {
                message_id,
                from,
                data,
                msg_num,
                kem_ct,
                otpk_id,
                is_control,
                content_type,
            } => EventView::MessageReceived {
                message_id: message_id@,
                from: from@,
                data: data@,
                msg_num: *msg_num,
                kem_ct: kem_ct@,
                otpk_id: *otpk_id,
                is_control: *is_control,
                content_type: *content_type,
            },
            IncomingEvent::OutgoingMessage {
                contact_id,
                message_id,
                plaintext,
                content_type,
            } => EventView::OutgoingMessage {
                contact_id: contact_id@,
                message_id: message_id@,
                plaintext: plaintext@,
                content_type: *content_type,
            },
            IncomingEvent::OutgoingCallSignal {
                contact_id,
                message_id,
                proto_bytes,
            } => EventView::OutgoingCallSignal {
                contact_id: contact_id@,
                message_id: message_id@,
                proto_bytes: proto_bytes@,
            },
            IncomingEvent::SessionInitCompleted {
                contact_id,
                session_data,
            } => EventView::SessionInitCompleted {
                contact_id: contact_id@,
                session_data: session_data@,
            },
            IncomingEvent::AckReceived { message_id } => EventView::AckReceived {
                message_id: message_id@,
            },
            IncomingEvent::KeyBundleFetched {
                user_id,
                bundle_json,
            } => EventView::KeyBundleFetched {
                user_id: user_id@,
                bundle_json: bundle_json@,
            },
            IncomingEvent::NetworkReconnected => EventView::NetworkReconnected,
            IncomingEvent::AppLaunched => EventView::AppLaunched,
            IncomingEvent::TimerFired { timer_id } => EventView::TimerFired {
                timer_id: timer_id@,
            },
            IncomingEvent::AckDbResult { message_id, is_processed } => EventView::AckDbResult {
                message_id: message_id@,
                is_processed: *is_processed,
            },
            IncomingEvent::HeartbeatReceived {
                contact_id,
                message_id,
                data,
                msg_num,
            } => EventView::HeartbeatReceived {
                contact_id: contact_id@,
                message_id: message_id@,
                data: data@,
                msg_num: *msg_num,
            },
            IncomingEvent::TeardownRequested { contact_id, cause } => EventView::TeardownRequested {
                contact_id: contact_id@,
                cause: *cause,
            },
            IncomingEvent::PeerToreDown { contact_id } => EventView::PeerToreDown {
                contact_id: contact_id@,
            },
            IncomingEvent::HealAttempted { contact_id } => EventView::HealAttempted {
                contact_id: contact_id@,
            },
            IncomingEvent::ReopenRequested { contact_id } => EventView::ReopenRequested {
                contact_id: contact_id@,
            },
            IncomingEvent::SriAnnounced { contact_id } => EventView::SriAnnounced {
                contact_id: contact_id@,
            },
            IncomingEvent::ResetInitArrived {
                contact_id,
                init_ephemeral,
                sent_at_s,
                established_at_s,
            } => EventView::ResetInitArrived {
                contact_id: contact_id@,
                init_ephemeral: init_ephemeral@,
                sent_at_s: *sent_at_s,
                established_at_s: *established_at_s,
            },
            IncomingEvent::PeerAcked { contact_id } => EventView::PeerAcked {
                contact_id: contact_id@,
            },
        }
    }
}

} // verus!
