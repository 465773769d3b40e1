use ring_detector::bridge::{
    Bridge, DispatchAction, DispatchEvent, DispatchState, Signal, SinkOperation, CHANNEL_CAPACITY,
};
use ring_detector::dns_service::DnsService;
use ring_detector::mock_service::MockPublisher;
use ring_detector::mqtt::{MqttClient, MqttMessage};
use ring_detector::mqtt_service::{MqttService, QoS, SinkCommand};
use std::path::PathBuf;
use tempfile::tempdir;

fn message() -> MqttMessage {
    MqttMessage::Publish { topic: "test/topic".to_string(), payload: b"test_payload".to_vec() }
}

fn with_publisher() -> Bridge {
    Bridge::with_mqtt(
        PathBuf::from("dns.sock"),
        "localhost".to_string(),
        1883,
        "user".to_string(),
        "pass".to_string(),
        "prefix".to_string(),
    )
}

/// Carries the publisher's part of the actions out on a recording double.
fn perform(actions: &[DispatchAction], publisher: &mut MockPublisher) {
    for action in actions {
        match action {
            DispatchAction::SendBirth => publisher.send_birth(),
            DispatchAction::Publish(message) => publisher.publish(message.clone()),
            DispatchAction::SendDeath => publisher.send_death(),
            _ => {}
        }
    }
}

#[test]
fn test_bridge_creation() {
    let dir = tempdir().unwrap();
    let socket_path = dir.path().join("dns.sock");

    // Test without MQTT
    let bridge = Bridge::new(socket_path.clone());
    assert!(!bridge.has_mqtt_config());

    // Test with MQTT
    let bridge_with_mqtt = Bridge::with_mqtt(
        socket_path,
        "localhost".to_string(),
        1883,
        "user".to_string(),
        "pass".to_string(),
        "prefix".to_string(),
    );

    assert!(bridge_with_mqtt.has_mqtt_config());
}

#[test]
fn async_test_bridge_creation() {
    let temp_dir = tempfile::tempdir().unwrap();
    let socket_path = temp_dir.path().join("dns.sock");

    // Test without MQTT
    let bridge = Bridge::new(socket_path.clone());
    assert!(!bridge.has_mqtt_config());

    // Test with MQTT
    let bridge_with_mqtt = Bridge::with_mqtt(
        socket_path,
        "localhost".to_string(),
        1883,
        "user".to_string(),
        "pass".to_string(),
        "prefix".to_string(),
    );

    assert!(bridge_with_mqtt.has_mqtt_config());
}

#[test]
fn bridge_keeps_what_it_was_given() {
    let bridge = with_publisher();
    assert_eq!(bridge.dns_listener().path(), &PathBuf::from("dns.sock"));
    let publisher = bridge.message_publisher().as_ref().unwrap();
    assert_eq!(publisher.prefix(), "prefix");
    assert_eq!(publisher.session(), &MqttClient::new("localhost", 1883, "user", "pass"));

    let (listener, publisher) = bridge.into_components();
    let (path, doorbells) = listener.into_parts();
    assert_eq!(path, PathBuf::from("dns.sock"));
    assert!(!doorbells.contains("10.0.0.5"));
    assert!(publisher.is_some());
}

#[test]
fn bridge_from_components_keeps_them() {
    let service = MqttService::new(MqttClient::new("h", 1, "u", "p"), "x".to_string());
    let bridge = Bridge::from_components(DnsService::new(PathBuf::from("/a/b")), Some(service.clone()));
    assert!(bridge.has_mqtt_config());
    assert_eq!(bridge.message_publisher(), &Some(service));
    assert_eq!(bridge.dns_listener().path(), &PathBuf::from("/a/b"));

    let bare = Bridge::from_components(DnsService::new(PathBuf::from("/a/b")), None);
    assert!(!bare.has_mqtt_config());
}

#[test]
fn channel_is_small() {
    assert_eq!(CHANNEL_CAPACITY, 10);
}

#[test]
fn test_bridge_start_with_mqtt() {
    let bridge = with_publisher();
    let mut publisher = MockPublisher::new();

    let (mut dispatch, actions) = bridge.start();
    assert_eq!(actions, vec![DispatchAction::SendBirth, DispatchAction::StartListening]);
    assert!(dispatch.is_publishing());
    assert_eq!(dispatch.current_state(), DispatchState::Running);
    perform(&actions, &mut publisher);
    assert!(publisher.was_birth_called());
    assert!(!publisher.was_death_called());

    let actions = dispatch.handle(DispatchEvent::ShutdownRequested(Signal::Interrupt));
    assert_eq!(actions, vec![DispatchAction::SendDeath, DispatchAction::StopListening]);
    assert_eq!(dispatch.current_state(), DispatchState::Stopped);
    perform(&actions, &mut publisher);
    assert!(publisher.was_death_called());
    assert!(publisher.get_published_messages().is_empty());
}

#[test]
fn test_message_processing() {
    let bridge = with_publisher();
    let mut publisher = MockPublisher::new();

    let (mut dispatch, actions) = bridge.start();
    perform(&actions, &mut publisher);

    let actions = dispatch.handle(DispatchEvent::MessageReceived(message()));
    assert_eq!(actions, vec![DispatchAction::Publish(message())]);
    perform(&actions, &mut publisher);

    let was_called = !publisher.get_published_messages().is_empty();
    assert!(was_called, "Message publish should have been called");
    assert_eq!(publisher.get_published_messages(), vec![message()]);
    assert_eq!(dispatch.current_state(), DispatchState::Running);
}

#[test]
fn test_bridge_without_mqtt() {
    let bridge = Bridge::from_components(DnsService::new(PathBuf::from("dns.sock")), None);

    assert!(!bridge.has_mqtt_config());

    let (mut dispatch, actions) = bridge.start();
    assert_eq!(actions, vec![DispatchAction::StartListening]);
    assert!(!dispatch.is_publishing());

    let actions = dispatch.handle(DispatchEvent::MessageReceived(message()));
    assert_eq!(actions, vec![DispatchAction::Log(message())]);

    let actions = dispatch.handle(DispatchEvent::ShutdownRequested(Signal::Hangup));
    assert_eq!(actions, vec![DispatchAction::StopListening]);
    assert_eq!(dispatch.current_state(), DispatchState::Stopped);
}

#[test]
fn test_publish_error() {
    let bridge = with_publisher();
    let (mut dispatch, _) = bridge.start();

    let actions = dispatch.handle(DispatchEvent::MessageReceived(message()));
    assert_eq!(actions, vec![DispatchAction::Publish(message())]);

    let actions = dispatch.handle(DispatchEvent::SinkFailed(SinkOperation::Publish));
    assert_eq!(actions, vec![DispatchAction::ReportFailure(SinkOperation::Publish)]);
    assert_eq!(dispatch.current_state(), DispatchState::Running);

    let actions = dispatch.handle(DispatchEvent::MessageReceived(message()));
    assert_eq!(actions, vec![DispatchAction::Publish(message())]);
}

#[test]
fn failed_birth_is_reported_and_the_loop_goes_on() {
    let (mut dispatch, _) = with_publisher().start();
    let actions = dispatch.handle(DispatchEvent::SinkFailed(SinkOperation::Birth));
    assert_eq!(actions, vec![DispatchAction::ReportFailure(SinkOperation::Birth)]);
    assert_eq!(dispatch.current_state(), DispatchState::Running);
    assert_eq!(dispatch.handle(DispatchEvent::ConnectionAccepted), vec![DispatchAction::SpawnWorker]);
}

#[test]
fn failed_death_is_reported_after_the_end() {
    let (mut dispatch, _) = with_publisher().start();
    dispatch.handle(DispatchEvent::ShutdownRequested(Signal::Interrupt));
    let actions = dispatch.handle(DispatchEvent::SinkFailed(SinkOperation::Death));
    assert_eq!(actions, vec![DispatchAction::ReportFailure(SinkOperation::Death)]);
    assert_eq!(dispatch.current_state(), DispatchState::Stopped);
}

#[test]
fn every_connection_gets_a_worker() {
    let (mut dispatch, _) = Bridge::new(PathBuf::from("dns.sock")).start();
    for _ in 0..3 {
        assert_eq!(dispatch.handle(DispatchEvent::ConnectionAccepted), vec![DispatchAction::SpawnWorker]);
        assert_eq!(dispatch.current_state(), DispatchState::Running);
    }
}

#[test]
fn bind_failure_aborts() {
    let (mut dispatch, _) = with_publisher().start();
    let actions = dispatch.handle(DispatchEvent::BindFailed);
    assert_eq!(actions, vec![DispatchAction::SendDeath, DispatchAction::StopListening]);
    assert_eq!(dispatch.current_state(), DispatchState::Aborted);

    let (mut bare, _) = Bridge::new(PathBuf::from("dns.sock")).start();
    assert_eq!(bare.handle(DispatchEvent::BindFailed), vec![DispatchAction::StopListening]);
    assert_eq!(bare.current_state(), DispatchState::Aborted);
}

#[test]
fn nothing_is_done_after_the_end() {
    for signal in [Signal::Interrupt, Signal::Hangup] {
        let (mut dispatch, _) = with_publisher().start();
        dispatch.handle(DispatchEvent::ShutdownRequested(signal));
        assert_eq!(dispatch.handle(DispatchEvent::MessageReceived(message())), vec![]);
        assert_eq!(dispatch.handle(DispatchEvent::ConnectionAccepted), vec![]);
        assert_eq!(dispatch.handle(DispatchEvent::ShutdownRequested(signal)), vec![]);
        assert_eq!(dispatch.handle(DispatchEvent::BindFailed), vec![]);
        assert_eq!(dispatch.current_state(), DispatchState::Stopped);
    }
}

#[test]
fn lifecycle_without_traffic_announces_birth_and_death() {
    let bridge = with_publisher();
    let service = bridge.message_publisher().clone().unwrap();
    let (mut dispatch, opening) = bridge.start();
    let closing = dispatch.handle(DispatchEvent::ShutdownRequested(Signal::Interrupt));

    let mut sent = Vec::new();
    for action in opening.iter().chain(closing.iter()) {
        match action {
            DispatchAction::SendBirth => sent.extend(service.send_birth()),
            DispatchAction::SendDeath => sent.extend(service.send_death()),
            DispatchAction::Publish(message) => sent.extend(service.publish(message.clone())),
            _ => {}
        }
    }
    assert_eq!(
        sent,
        vec![
            SinkCommand::Publish {
                topic: "prefix/status".to_string(),
                qos: QoS::AtLeastOnce,
                retain: true,
                payload: b"online".to_vec(),
            },
            SinkCommand::Publish {
                topic: "prefix/status".to_string(),
                qos: QoS::AtLeastOnce,
                retain: true,
                payload: b"offline".to_vec(),
            },
            SinkCommand::Disconnect,
        ]
    );
}
