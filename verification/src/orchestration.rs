//! Orchestration: the decisions above the cryptographic primitives.

pub mod ack_store;
pub mod actions;
pub mod clock;
pub mod device_ids;
pub mod healing_queue;
pub mod initiation_plan;
pub mod message_router;
pub mod orchestrator;
pub mod pq_contribution;
pub mod pq_prekey_plan;
pub mod receiving_decrypt_plan;
pub mod receiving_init_plan;
pub mod send_plan;
pub mod session_lifecycle;
pub mod session_machine;
pub mod session_windows;
pub mod state;
pub mod teardown_plan;
pub mod wire_message;

pub use ack_store::{AckCheckResult, AckStore};
pub use actions::{Action, IncomingEvent, ReceiptStatus, SecureStoreSlot};
pub use clock::Clock;
pub use healing_queue::{HealDirection, HealingDecision, HealingQueue, HealingRecord};
pub use message_router::{tie_break_role, IncomingMessage, MessageRouter, Role, RoutingDecision};
pub use orchestrator::Orchestrator;
pub use pq_contribution::{DeferredContribution, PQContributionManager};
pub use receiving_init_plan::{
    plan_receiving_init, receiving_init_kind, ReceivingInitAttempt, ReceivingInitCarrier,
    ReceivingInitKind,
};
pub use send_plan::{plan_send, DeliveryAudience, DeliveryTarget};
pub use session_lifecycle::{DecryptResult, EncryptResult, SessionLifecycleManager};
pub use teardown_plan::{plan_teardown, TeardownAction, TeardownDecision};
