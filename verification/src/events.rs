//! The packet events that the collector counts and time-stamps.
use vstd::prelude::*;

verus! {

/// A packet event of the NTP server.
#[derive(Clone, Copy, Debug, PartialEq, Eq, Structural)]
pub enum PacketEvent {
    /// A client request arrived.
    ServerRequestReceived,
    /// A response was sent to a client.
    ServerResponseSent,
    /// A request was dropped without a response.
    ServerRequestDropped,
    /// Sending a response failed.
    ServerSendError,
}

/// The label value of an event.
pub open spec fn event_name(e: PacketEvent) -> Seq<char> {
    match e {
        PacketEvent::ServerRequestReceived => "server_request_received"@,
        PacketEvent::ServerResponseSent => "server_response_sent"@,
        PacketEvent::ServerRequestDropped => "server_request_dropped"@,
        PacketEvent::ServerSendError => "server_send_error"@,
    }
}

/// Different events have different label values.
pub proof fn lemma_event_names_differ(a: PacketEvent, b: PacketEvent)
    requires
        a != b,
    ensures
        event_name(a) != event_name(b),
{
    reveal_strlit("server_request_received");
    reveal_strlit("server_response_sent");
    reveal_strlit("server_request_dropped");
    reveal_strlit("server_send_error");
    assert(event_name(a).len() != event_name(b).len());
}

impl PacketEvent {
    /// The label value of the event.
    pub fn as_str(&self) -> (s: &'static str)
        ensures
            s@ == event_name(*self),
    {
        match self {
            PacketEvent::ServerRequestReceived => "server_request_received",
            PacketEvent::ServerResponseSent => "server_response_sent",
            PacketEvent::ServerRequestDropped => "server_request_dropped",
            PacketEvent::ServerSendError => "server_send_error",
        }
    }
}

} // verus!
