//! The decisions of control sessions: how a server or edge opens its
//! session with the hub (hello, auth, register, then running), how the
//! server's legacy control port lets an edge in, and how it keeps the record
//! of an edge that is connected there.

use vstd::prelude::*;
use crate::common::TransportKind;

verus! {

// ---------------------------------------------------------------------------
// Opening a session with the hub
// ---------------------------------------------------------------------------

/// Where a session with the hub stands.
#[derive(PartialEq, Eq, Structural, Clone, Copy, Debug)]
pub enum HubLink {
    /// Connected; the hub's hello is awaited.
    AwaitHello,
    /// The auth request went out; the hub's answer is awaited.
    AwaitAuth,
    /// Authenticated and registered: hub messages are handled.
    Running,
    /// The session is given up (the peer reconnects).
    Closed,
}

/// What arrived from the hub while the session opens.
#[derive(PartialEq, Eq, Structural, Clone, Copy, Debug)]
pub enum HubEvent {
    Hello,
    AuthOk,
    /// An error message (such as a refused token).
    Error,
    /// Any other message.
    Other,
    /// Nothing arrived in time, or the connection closed.
    Silence,
}

/// What the peer does next.
#[derive(PartialEq, Eq, Structural, Clone, Copy, Debug)]
pub enum HubAction {
    /// Send the auth request.
    SendAuth,
    /// Send the registration; the session then runs.
    SendRegister,
    /// Handle the message as part of the running session.
    Handle,
    /// Give the session up.
    GiveUp,
}

/// One step of opening a session: the hello comes first, then the auth
/// answer; anything else, or silence, gives the session up. Once running,
/// every message is handled.
pub open spec fn hub_link_step(s: HubLink, e: HubEvent) -> (HubLink, HubAction) {
    match s {
        HubLink::AwaitHello => if e == HubEvent::Hello {
            (HubLink::AwaitAuth, HubAction::SendAuth)
        } else {
            (HubLink::Closed, HubAction::GiveUp)
        },
        HubLink::AwaitAuth => if e == HubEvent::AuthOk {
            (HubLink::Running, HubAction::SendRegister)
        } else {
            (HubLink::Closed, HubAction::GiveUp)
        },
        HubLink::Running => if e == HubEvent::Silence {
            (HubLink::Closed, HubAction::GiveUp)
        } else {
            (HubLink::Running, HubAction::Handle)
        },
        HubLink::Closed => (HubLink::Closed, HubAction::GiveUp),
    }
}

impl HubLink {
    /// The state of a session that has just connected.
    pub fn start() -> (r: Self)
        ensures
            r == HubLink::AwaitHello,
    {
        HubLink::AwaitHello
    }

    /// Takes in event `e`: the next state and what to do now.
    pub fn step(self, e: HubEvent) -> (r: (HubLink, HubAction))
        ensures
            r == hub_link_step(self, e),
    {
        match self {
            HubLink::AwaitHello => if e == HubEvent::Hello {
                (HubLink::AwaitAuth, HubAction::SendAuth)
            } else {
                (HubLink::Closed, HubAction::GiveUp)
            },
            HubLink::AwaitAuth => if e == HubEvent::AuthOk {
                (HubLink::Running, HubAction::SendRegister)
            } else {
                (HubLink::Closed, HubAction::GiveUp)
            },
            HubLink::Running => if e == HubEvent::Silence {
                (HubLink::Closed, HubAction::GiveUp)
            } else {
                (HubLink::Running, HubAction::Handle)
            },
            HubLink::Closed => (HubLink::Closed, HubAction::GiveUp),
        }
    }
}

/// A session runs only after a hello and then an auth answer: from a fresh
/// connection, the first two events decide, and no message is handled
/// before the registration is sent.
pub proof fn session_runs_only_after_hello_and_auth(e1: HubEvent, e2: HubEvent)
    ensures
        hub_link_step(hub_link_step(HubLink::AwaitHello, e1).0, e2).0 == HubLink::Running <==> (e1
            == HubEvent::Hello && e2 == HubEvent::AuthOk),
        hub_link_step(HubLink::AwaitHello, e1).1 != HubAction::Handle,
        hub_link_step(hub_link_step(HubLink::AwaitHello, e1).0, e2).1 != HubAction::Handle,
{
}

// ---------------------------------------------------------------------------
// The legacy control port
// ---------------------------------------------------------------------------

/// How the control port answers an edge's first message.
#[derive(PartialEq, Eq, Structural, Clone, Copy, Debug)]
pub enum ControlAuth {
    /// The first message was not an auth request.
    AuthRequired,
    /// No node is registered under the id.
    UnknownNode,
    /// The node is disabled or its token does not check.
    AuthFailed,
    /// The edge is let in.
    Accept,
}

/// The answer to a first message that is an auth request or not
/// (`is_auth`), for a node registered as enabled or disabled or not at all
/// (`enabled`), whose token checks or not (`token_ok`).
pub open spec fn control_auth_spec(is_auth: bool, enabled: Option<bool>, token_ok: bool) -> ControlAuth {
    if !is_auth {
        ControlAuth::AuthRequired
    } else {
        match enabled {
            None => ControlAuth::UnknownNode,
            Some(en) => if en && token_ok {
                ControlAuth::Accept
            } else {
                ControlAuth::AuthFailed
            },
        }
    }
}

/// How the control port answers an edge's first message.
pub fn control_auth(is_auth: bool, enabled: Option<bool>, token_ok: bool) -> (r: ControlAuth)
    ensures
        r == control_auth_spec(is_auth, enabled, token_ok),
        r == ControlAuth::Accept <==> (is_auth && enabled == Some(true) && token_ok),
{
    if !is_auth {
        ControlAuth::AuthRequired
    } else {
        match enabled {
            None => ControlAuth::UnknownNode,
            Some(en) => if en && token_ok {
                ControlAuth::Accept
            } else {
                ControlAuth::AuthFailed
            },
        }
    }
}

/// The record of an edge connected to the control port.
pub struct EdgeRecord {
    pub node_id: String,
    pub name: String,
    pub version: String,
    pub public_ip: Option<String>,
    pub nat_type: Option<String>,
    pub transports: Vec<TransportKind>,
}

impl EdgeRecord {
    /// A registration: a given version replaces the recorded one, a
    /// non-empty transport list replaces the recorded one.
    pub fn on_register(&mut self, version: Option<String>, transports: Vec<TransportKind>)
        ensures
            final(self).version == match version {
                Some(v) => v,
                None => old(self).version,
            },
            final(self).transports@ == if transports@.len() > 0 {
                transports@
            } else {
                old(self).transports@
            },
            final(self).node_id == old(self).node_id,
            final(self).name == old(self).name,
            final(self).public_ip == old(self).public_ip,
            final(self).nat_type == old(self).nat_type,
    {
        if let Some(v) = version {
            self.version = v;
        }
        if transports.len() > 0 {
            self.transports = transports;
        }
    }

    /// NAT information: the reported NAT type replaces the recorded one; a
    /// reported public address replaces the recorded one, else it stays.
    pub fn on_nat_info(&mut self, nat_type: Option<String>, public_ip: Option<String>)
        ensures
            final(self).nat_type == nat_type,
            final(self).public_ip == match public_ip {
                Some(ip) => Some(ip),
                None => old(self).public_ip,
            },
            final(self).node_id == old(self).node_id,
            final(self).name == old(self).name,
            final(self).version == old(self).version,
            final(self).transports == old(self).transports,
    {
        self.nat_type = nat_type;
        if public_ip.is_some() {
            self.public_ip = public_ip;
        }
    }
}

} // verus!
