use srad::mqtt::{ConnectionState, ConnectionTracker, MqttOptions, PolledEvent, PollAction, Transport};

#[test]
fn options_default_to_tcp_without_credentials() {
    let o = MqttOptions::new("client", "localhost", 1883);
    assert_eq!(o.client_id, "client");
    assert_eq!(o.broker_addr, "localhost");
    assert_eq!(o.port, 1883);
    assert_eq!(o.transport, Transport::Tcp);
    assert!(o.credentials.is_none());
    assert!(o.connect_properties.is_none());
}

#[test]
fn connection_tracking() {
    let mut t = ConnectionTracker::new();
    assert_eq!(t.state(), ConnectionState::Disconnected);
    assert_eq!(t.on_event(PolledEvent::Error), PollAction::WaitAndRetry);
    assert_eq!(t.on_event(PolledEvent::ConnAck), PollAction::EmitOnline);
    assert_eq!(t.state(), ConnectionState::Connected);
    assert_eq!(t.on_event(PolledEvent::IncomingPublish), PollAction::EmitPublish);
    assert_eq!(t.on_event(PolledEvent::Other), PollAction::Skip);
    assert_eq!(t.on_event(PolledEvent::Error), PollAction::EmitOffline);
    assert_eq!(t.state(), ConnectionState::Disconnected);
    // a second error while reconnecting reports nothing new
    assert_eq!(t.on_event(PolledEvent::Error), PollAction::WaitAndRetry);
    assert_eq!(t.on_event(PolledEvent::ConnAck), PollAction::EmitOnline);
    assert_eq!(t.on_event(PolledEvent::OutgoingDisconnect), PollAction::EmitOffline);
    assert_eq!(t.state(), ConnectionState::ManualDisconnected);
    assert_eq!(t.on_event(PolledEvent::Error), PollAction::Skip);
    assert_eq!(t.on_event(PolledEvent::ConnAck), PollAction::EmitOnline);
    assert_eq!(t.on_event(PolledEvent::IncomingDisconnect), PollAction::EmitOffline);
    assert_eq!(t.state(), ConnectionState::Disconnected);
}
