//! The options an MQTT client connects with, and how the client's connection
//! state follows what its event loop reports.

use vstd::prelude::*;

verus! {

/// MQTT v5 connect properties the client sets.
#[derive(Debug, Clone, Copy, PartialEq, Eq, Structural)]
pub struct ConnectionProperties {
    pub receive_maximum: Option<u16>,
    pub max_packet_size: Option<u32>,
}

/// The transport the client connects over.
#[derive(Debug, Clone, Copy, PartialEq, Eq, Structural)]
pub enum Transport {
    Tcp,
}

/// What the client needs to connect to a broker.
#[derive(Debug)]
pub struct MqttOptions {
    pub broker_addr: String,
    pub port: u16,
    pub client_id: String,
    pub transport: Transport,
    pub credentials: Option<(String, String)>,
    pub connect_properties: Option<ConnectionProperties>,
}

impl MqttOptions {
    /// Options for client `client_id` connecting over TCP to `addr` at
    /// `port`, without credentials or connect properties.
    pub fn new(client_id: &str, addr: &str, port: u16) -> (r: Self)
        ensures
            r.client_id@ == client_id@,
            r.broker_addr@ == addr@,
            r.port == port,
            r.transport == Transport::Tcp,
            r.credentials is None,
            r.connect_properties is None,
    {
        Self {
            broker_addr: String::from_str(addr),
            port,
            client_id: String::from_str(client_id),
            transport: Transport::Tcp,
            credentials: None,
            connect_properties: None,
        }
    }
}

/// The state of the client's connection.
#[derive(Debug, Clone, Copy, PartialEq, Eq, Structural)]
pub enum ConnectionState {
    /// Not connected, and reconnecting.
    Disconnected,
    /// Disconnected on the client's own request.
    ManualDisconnected,
    Connected,
}

/// What the MQTT event loop reported.
#[derive(Debug, Clone, Copy, PartialEq, Eq, Structural)]
pub enum PolledEvent {
    /// The broker acknowledged the connection.
    ConnAck,
    /// The broker disconnected the client.
    IncomingDisconnect,
    /// A message was published to the client.
    IncomingPublish,
    /// The client sent a disconnect.
    OutgoingDisconnect,
    /// Anything else.
    Other,
    /// The connection failed.
    Error,
}

/// What the client does with a report of its event loop.
#[derive(Debug, Clone, Copy, PartialEq, Eq, Structural)]
pub enum PollAction {
    /// Report that the client is online.
    EmitOnline,
    /// Report that the client is offline.
    EmitOffline,
    /// Report the published message.
    EmitPublish,
    /// Report nothing and poll again.
    Skip,
    /// Report nothing, wait a second, and poll again.
    WaitAndRetry,
}

/// The connection state a report leads to, and what the client does with it.
pub open spec fn spec_poll_step(state: ConnectionState, event: PolledEvent) -> (
    ConnectionState,
    PollAction,
) {
    match event {
        PolledEvent::ConnAck => (ConnectionState::Connected, PollAction::EmitOnline),
        PolledEvent::IncomingDisconnect => (ConnectionState::Disconnected, PollAction::EmitOffline),
        PolledEvent::IncomingPublish => (state, PollAction::EmitPublish),
        PolledEvent::OutgoingDisconnect => (
            ConnectionState::ManualDisconnected,
            PollAction::EmitOffline,
        ),
        PolledEvent::Other => (state, PollAction::Skip),
        PolledEvent::Error => match state {
            ConnectionState::Connected => (ConnectionState::Disconnected, PollAction::EmitOffline),
            ConnectionState::Disconnected => (state, PollAction::WaitAndRetry),
            ConnectionState::ManualDisconnected => (state, PollAction::Skip),
        },
    }
}

/// Follows the client's connection through the reports of its event loop.
pub struct ConnectionTracker {
    state: ConnectionState,
}

impl ConnectionTracker {
    pub closed spec fn spec_state(&self) -> ConnectionState {
        self.state
    }

    /// A tracker of a client that has not connected yet.
    pub fn new() -> (r: Self)
        ensures
            r.spec_state() == ConnectionState::Disconnected,
    {
        Self { state: ConnectionState::Disconnected }
    }

    /// The client's connection state.
    pub fn state(&self) -> (r: ConnectionState)
        ensures
            r == self.spec_state(),
    {
        self.state
    }

    /// Takes a report of the event loop. A connection acknowledgement puts
    /// the client online; a disconnect, from the broker or the client, puts it
    /// offline; an error puts a connected client offline, makes a
    /// reconnecting client wait before its next attempt, and is ignored
    /// after the client's own disconnect.
    pub fn on_event(&mut self, event: PolledEvent) -> (r: PollAction)
        ensures
            (final(self).spec_state(), r) == spec_poll_step(old(self).spec_state(), event),
    {
        let (state, action) = match event {
            PolledEvent::ConnAck => (ConnectionState::Connected, PollAction::EmitOnline),
            PolledEvent::IncomingDisconnect => (
                ConnectionState::Disconnected,
                PollAction::EmitOffline,
            ),
            PolledEvent::IncomingPublish => (self.state, PollAction::EmitPublish),
            PolledEvent::OutgoingDisconnect => (
                ConnectionState::ManualDisconnected,
                PollAction::EmitOffline,
            ),
            PolledEvent::Other => (self.state, PollAction::Skip),
            PolledEvent::Error => match self.state {
                ConnectionState::Connected => (
                    ConnectionState::Disconnected,
                    PollAction::EmitOffline,
                ),
                ConnectionState::Disconnected => (self.state, PollAction::WaitAndRetry),
                ConnectionState::ManualDisconnected => (self.state, PollAction::Skip),
            },
        };
        self.state = state;
        action
    }
}

/// The actions for the reports `events`, handled in turn from `state`.
pub open spec fn poll_run(state: ConnectionState, events: Seq<PolledEvent>) -> Seq<PollAction>
    decreases events.len(),
{
    if events.len() == 0 {
        Seq::empty()
    } else {
        let (next, action) = spec_poll_step(state, events[0]);
        seq![action] + poll_run(next, events.drop_first())
    }
}

/// `e` neither connects nor disconnects the client.
pub open spec fn keeps_connection(e: PolledEvent) -> bool {
    e != PolledEvent::ConnAck && e != PolledEvent::IncomingDisconnect && e
        != PolledEvent::OutgoingDisconnect
}

proof fn lemma_offline_stays_quiet(state: ConnectionState, events: Seq<PolledEvent>)
    requires
        state != ConnectionState::Connected,
        forall|i: int| 0 <= i < events.len() ==> keeps_connection(#[trigger] events[i]),
    ensures
        poll_run(state, events).len() == events.len(),
        forall|i: int|
            0 <= i < events.len() ==> #[trigger] poll_run(state, events)[i]
                != PollAction::EmitOffline,
    decreases events.len(),
{
    if events.len() > 0 {
        let (next, action) = spec_poll_step(state, events[0]);
        let rest = events.drop_first();
        assert(keeps_connection(events[0]));
        assert forall|i: int| 0 <= i < rest.len() implies keeps_connection(#[trigger] rest[i]) by {
            assert(rest[i] == events[i + 1]);
        }
        lemma_offline_stays_quiet(next, rest);
        let run = poll_run(state, events);
        assert(run == seq![action] + poll_run(next, rest));
        assert forall|i: int| 0 <= i < events.len() implies #[trigger] run[i]
            != PollAction::EmitOffline by {
            if i > 0 {
                assert(run[i] == poll_run(next, rest)[i - 1]);
            }
        }
    }
}

/// Connection errors report the client offline once: after the client was
/// reported offline, the reports that follow, as long as none of them
/// connects or disconnects the client (failed reconnection attempts in
/// particular), report nothing offline again.
pub proof fn lemma_offline_reported_once_per_connection(
    state: ConnectionState,
    event: PolledEvent,
    events: Seq<PolledEvent>,
)
    requires
        spec_poll_step(state, event).1 == PollAction::EmitOffline,
        forall|i: int| 0 <= i < events.len() ==> keeps_connection(#[trigger] events[i]),
    ensures
        poll_run(spec_poll_step(state, event).0, events).len() == events.len(),
        forall|i: int|
            0 <= i < events.len() ==> #[trigger] poll_run(spec_poll_step(state, event).0, events)[i]
                != PollAction::EmitOffline,
{
    lemma_offline_stays_quiet(spec_poll_step(state, event).0, events);
}

} // verus!
