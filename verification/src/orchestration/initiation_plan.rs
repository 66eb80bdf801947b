//! Whether to open a session with a device right now, and as which side.
//!
//! "May I initiate?" is a question two clients must answer compatibly or the session does not form.
//! A session is opened when there is something to put in it; two peers who both have something to
//! send still collide, and that collision is ranked.

use vstd::prelude::*;

use crate::orchestration::message_router::{self, tie_break_role, Role};
use crate::strings::{self, is_blank};

verus! {

/// What to do about opening a session with one device.
#[derive(Debug, Clone, Copy, PartialEq, Eq, Structural)]
pub enum InitiationDecision {
    /// Open a fresh session as INITIATOR now.
    Initiate,
    /// One of ours is already in flight. Join it — do not start a second.
    JoinInFlight,
    /// The peer's init is arriving and outranks ours. Take the responder side.
    YieldToPeer,
    /// Nothing to send and no init in the air.
    Wait,
}

impl InitiationDecision {
    /// The spelling of a decision, stable across clients.
    pub open spec fn wire(self) -> Seq<char> {
        match self {
            InitiationDecision::Initiate => "Initiate"@,
            InitiationDecision::JoinInFlight => "JoinInFlight"@,
            InitiationDecision::YieldToPeer => "YieldToPeer"@,
            InitiationDecision::Wait => "Wait"@,
        }
    }

    /// Stable wire spelling, so a client can log and compare it without re-deriving the names.
    pub fn as_wire(&self) -> (r: &'static str)
        ensures
            r@ == self.wire(),
    {
        match self {
            InitiationDecision::Initiate => "Initiate",
            InitiationDecision::JoinInFlight => "JoinInFlight",
            InitiationDecision::YieldToPeer => "YieldToPeer",
            InitiationDecision::Wait => "Wait",
        }
    }
}

/// What the caller knows at the moment it wants a session.
#[derive(Debug, Clone, PartialEq, Eq)]
pub struct InitiationContext {
    /// Our device id, in the space the session is addressed by.
    pub my_device_id: String,
    /// The device we want a session with.
    pub peer_device_id: String,
    /// We sent a `SESSION_RESET_INIT` to this device and it is neither acknowledged nor expired.
    pub our_init_in_flight: bool,
    /// We have the peer's init in hand — received, not yet completed.
    pub peer_init_in_flight: bool,
    /// Something is waiting to be sent to this device.
    pub have_outbound_work: bool,
}

/// An `InitiationContext` by the characters of its ids.
pub struct InitiationView {
    pub my_device_id: Seq<char>,
    pub peer_device_id: Seq<char>,
    pub our_init_in_flight: bool,
    pub peer_init_in_flight: bool,
    pub have_outbound_work: bool,
}

impl DeepView for InitiationContext {
    type V = InitiationView;

    open spec fn deep_view(&self) -> InitiationView {
        InitiationView {
            my_device_id: self.my_device_id@,
            peer_device_id: self.peer_device_id@,
            our_init_in_flight: self.our_init_in_flight,
            peer_init_in_flight: self.peer_init_in_flight,
            have_outbound_work: self.have_outbound_work,
        }
    }
}

/// The decision. The order of the arms is the content: an unnameable device is waited on, ours in
/// flight is joined, theirs in flight is ranked, and otherwise a session is opened only when there
/// is something to put in it.
pub open spec fn initiation(ctx: InitiationView) -> InitiationDecision {
    if ctx.peer_device_id.len() == 0 || ctx.my_device_id.len() == 0 {
        InitiationDecision::Wait
    } else if ctx.our_init_in_flight {
        InitiationDecision::JoinInFlight
    } else if ctx.peer_init_in_flight {
        match message_router::role_of(ctx.my_device_id, ctx.peer_device_id) {
            Role::Initiator => InitiationDecision::Initiate,
            Role::Responder => InitiationDecision::YieldToPeer,
        }
    } else if ctx.have_outbound_work {
        InitiationDecision::Initiate
    } else {
        InitiationDecision::Wait
    }
}

/// Decide whether to open a session with `peer_device_id` right now.
pub fn plan_initiation(ctx: &InitiationContext) -> (r: InitiationDecision)
    ensures
        r == initiation(ctx.deep_view()),
{
    if is_blank(ctx.peer_device_id.as_str()) || is_blank(ctx.my_device_id.as_str()) {
        return InitiationDecision::Wait;
    }
    if ctx.our_init_in_flight {
        return InitiationDecision::JoinInFlight;
    }
    if ctx.peer_init_in_flight {
        return match tie_break_role(ctx.my_device_id.as_str(), ctx.peer_device_id.as_str()) {
            Role::Initiator => InitiationDecision::Initiate,
            Role::Responder => InitiationDecision::YieldToPeer,
        };
    }
    if ctx.have_outbound_work {
        return InitiationDecision::Initiate;
    }
    InitiationDecision::Wait
}

/// A visible collision is ranked the same way on both sides: exactly one initiates and the other
/// yields, whatever either has to send.
pub proof fn one_side_yields(a: InitiationView, b: InitiationView)
    requires
        a.my_device_id == b.peer_device_id,
        a.peer_device_id == b.my_device_id,
        a.my_device_id != a.peer_device_id,
        a.my_device_id.len() > 0,
        a.peer_device_id.len() > 0,
        a.peer_init_in_flight,
        b.peer_init_in_flight,
        !a.our_init_in_flight,
        !b.our_init_in_flight,
    ensures
        initiation(a) is Initiate <==> initiation(b) is YieldToPeer,
        initiation(a) is Initiate || initiation(a) is YieldToPeer,
{
    message_router::opposite_roles(a.my_device_id, a.peer_device_id);
}

/// A session is opened only when there is something to put in it or the peer's init is in hand.
pub proof fn no_session_opens_with_nothing_to_say(ctx: InitiationView)
    requires
        !ctx.have_outbound_work,
        !ctx.peer_init_in_flight,
    ensures
        !(initiation(ctx) is Initiate),
{
}

/// A second init is never started while one of ours is in flight.
pub proof fn a_second_init_is_never_started(ctx: InitiationView)
    requires
        ctx.our_init_in_flight,
    ensures
        !(initiation(ctx) is Initiate),
{
}

/// What is decided, in full: without both ids one waits; an init of ours in flight is joined; an
/// init of the peer in flight is met with our own by the device with the higher id, and yielded to
/// by the other; and with nothing in flight a session is opened exactly for what is to be sent.
pub proof fn the_initiation_in_full(ctx: InitiationView)
    ensures
        ({
            let known = ctx.my_device_id.len() > 0 && ctx.peer_device_id.len() > 0;
            let higher = strings::lex_less(ctx.peer_device_id, ctx.my_device_id);
            let d = initiation(ctx);
            &&& d is JoinInFlight <==> known && ctx.our_init_in_flight
            &&& d is YieldToPeer <==> known && !ctx.our_init_in_flight && ctx.peer_init_in_flight
                && !higher
            &&& d is Initiate <==> known && !ctx.our_init_in_flight && (if ctx.peer_init_in_flight {
                higher
            } else {
                ctx.have_outbound_work
            })
            &&& d is Wait <==> !known || (!ctx.our_init_in_flight && !ctx.peer_init_in_flight
                && !ctx.have_outbound_work)
        }),
{
}

} // verus!
