use file_version_monitor::connection::{connect_settings, settings_for, KEEP_ALIVE_SECS};
use file_version_monitor::link::{on_link_event, LinkError, LinkEvent, LinkNext, RefreshAction};
use file_version_monitor::{Broker, BrokerUpdateParams, MqttClient};

fn broker(host: &str) -> Broker {
    Broker {
        client_id: "client-1".to_string(),
        device_group: "group".to_string(),
        device_id: "device".to_string(),
        host: host.to_string(),
        password: String::new(),
        port: 1883,
        protocol: "mqtt://".to_string(),
        username: String::new(),
        state: "Server started".to_string(),
        connected: false,
    }
}

#[test]
fn host_change_restarts_exactly_one_task() {
    let stored = broker("old.example");
    let (mut client, first) = MqttClient::init(Some(&stored));
    assert_eq!(first.host, "old.example");
    assert_eq!(client.event_loop_task, 0);

    let mut edited = stored.clone();
    edited.apply_update(BrokerUpdateParams { host: Some("new.example".to_string()), ..Default::default() });
    match client.refresh(&edited) {
        RefreshAction::Restart { cancel, start, settings } => {
            assert_eq!(cancel, 0);
            assert_eq!(start, 1);
            assert_eq!(settings.host, "new.example");
            assert_eq!(settings.client_id, "client-1");
        }
        RefreshAction::Keep => panic!("a changed host must restart the connection"),
    }
    assert_eq!(client.current_client_config.host, "new.example");
    assert_eq!(client.current_client_config.state, "Server started");
    assert_eq!(client.event_loop_task, 1);
}

#[test]
fn unchanged_broker_keeps_connection() {
    let stored = broker("h");
    let (mut client, _) = MqttClient::init(Some(&stored));
    let mut status_only = stored.clone();
    status_only.connected = true;
    status_only.state = "Connected".to_string();
    assert!(matches!(client.refresh(&status_only), RefreshAction::Keep));
    assert_eq!(client.event_loop_task, 0);
    assert!(!client.current_client_config.connected);
}

#[test]
fn fallback_settings_without_stored_record() {
    let (client, settings) = MqttClient::init(None);
    assert_eq!(settings.client_id, "test-client-01");
    assert_eq!(settings.host, "localhost");
    assert_eq!(settings.port, 1883);
    assert!(!settings.tls);
    assert!(settings.credentials.is_none());
    assert_eq!(settings.keep_alive_secs, KEEP_ALIVE_SECS);
    assert_eq!(client.current_client_config.device_id, "FC_0103");
    assert_eq!(client.current_client_config.device_group, "autogroup_Monitor");
}

#[test]
fn credentials_and_tls_follow_the_record() {
    let mut b = broker("secure.example");
    b.protocol = "mqtts://".to_string();
    b.username = "admin".to_string();
    b.password = "SECRET-REDACTED".to_string();
    let (settings, config) = connect_settings(&b);
    assert!(settings.tls);
    assert_eq!(settings.credentials, Some(("admin".to_string(), "SECRET-REDACTED".to_string())));
    assert_eq!(config.state, "Server started");
    b.password = String::new();
    let (settings, _) = settings_for(Some(&b));
    assert!(settings.credentials.is_none());
}

#[test]
fn admin_edit_keeps_status_fields() {
    let mut b = broker("h");
    b.connected = true;
    b.state = "Connected".to_string();
    b.apply_update(BrokerUpdateParams {
        port: Some(8883),
        protocol: Some("mqtts://".to_string()),
        ..Default::default()
    });
    assert_eq!(b.port, 8883);
    assert_eq!(b.protocol, "mqtts://");
    assert_eq!(b.host, "h");
    assert!(b.connected);
    assert_eq!(b.state, "Connected");
}

#[test]
fn status_write_back() {
    let b = broker("h").with_status(true, "Connected");
    assert!(b.connected);
    assert_eq!(b.state, "Connected");
    assert_eq!(b.host, "h");
    let init = Broker::initial();
    assert_eq!(init.client_id, "eh-mqtt-client-1");
    assert_eq!(init.port, 1883);
}

#[test]
fn acknowledgements_mark_connected() {
    for ev in [LinkEvent::ConnAck, LinkEvent::PingResp] {
        let step = on_link_event(ev);
        assert_eq!(step.status, Some((true, "Connected".to_string())));
        assert_eq!(step.next, LinkNext::Continue);
    }
    let step = on_link_event(LinkEvent::Outgoing);
    assert!(step.status.is_none());
    assert_eq!(step.next, LinkNext::Continue);
}

#[test]
fn transient_failures_pause_or_continue() {
    let s = on_link_event(LinkEvent::Failed(LinkError::MqttState("bad state".to_string())));
    assert_eq!(s.status, Some((false, "bad state".to_string())));
    assert_eq!(s.next, LinkNext::Pause(1));
    let s = on_link_event(LinkEvent::Failed(LinkError::Io { invalid_data: false, message: "reset".to_string() }));
    assert_eq!(s.status, Some((false, "reset".to_string())));
    assert_eq!(s.next, LinkNext::Pause(10));
    let s = on_link_event(LinkEvent::Failed(LinkError::Timeout));
    assert_eq!(s.status, Some((false, "Timeout".to_string())));
    assert_eq!(s.next, LinkNext::Pause(1));
}

#[test]
fn fatal_failures_stop_the_task() {
    let s = on_link_event(LinkEvent::Failed(LinkError::Io {
        invalid_data: true,
        message: "Promised boundary crossed: 256".to_string(),
    }));
    assert_eq!(s.status, Some((false, "Needs SSL/TLS enabled".to_string())));
    assert_eq!(s.next, LinkNext::Stop);
    for e in [
        LinkError::TlsIo("io".to_string()),
        LinkError::TlsDnsName("dns".to_string()),
        LinkError::Tls("cert".to_string()),
        LinkError::ConnectionRefused("NotAuthorized".to_string()),
    ] {
        let s = on_link_event(LinkEvent::Failed(e));
        assert_eq!(s.next, LinkNext::Stop);
        assert!(matches!(s.status, Some((false, _))));
    }
    let s = on_link_event(LinkEvent::Failed(LinkError::Other));
    assert_eq!(s.status, Some((false, "Connection Error".to_string())));
    assert_eq!(s.next, LinkNext::Stop);
}
