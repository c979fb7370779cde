use vstd::prelude::*;
use crate::settings::{Broker, same_connection};

verus! {

/// Seconds between keep-alive pings of a broker connection.
pub const KEEP_ALIVE_SECS: u64 = 30;

/// What a new broker connection is opened with.
#[derive(Debug, Clone)]
pub struct ConnectSettings {
    pub client_id: String,
    pub host: String,
    pub port: u16,
    /// User name and password, sent only when both are non-empty.
    pub credentials: Option<(String, String)>,
    /// Whether the connection runs over TLS with the platform's root
    /// certificates.
    pub tls: bool,
    pub keep_alive_secs: u64,
}

/// The settings that a connection for `b` is opened with.
pub open spec fn settings_match(s: ConnectSettings, b: Broker) -> bool {
    &&& s.client_id@ == b.client_id@
    &&& s.host@ == b.host@
    &&& s.port == b.port
    &&& s.keep_alive_secs == KEEP_ALIVE_SECS
    &&& s.tls == (b.protocol@ == "mqtts://"@)
    &&& match s.credentials {
        Some((u, p)) => u@ == b.username@ && p@ == b.password@ && u@.len() > 0 && p@.len() > 0,
        None => b.username@.len() == 0 || b.password@.len() == 0,
    }
}

/// The broker record used when the store holds none.
pub open spec fn is_fallback_broker(b: Broker) -> bool {
    &&& b.client_id@ == "test-client-01"@
    &&& b.host@ == "localhost"@
    &&& b.port == 1883
    &&& b.protocol@ == "mqtt://"@
    &&& b.device_group@ == "autogroup_Monitor"@
    &&& b.device_id@ == "FC_0103"@
    &&& b.username@ == Seq::<char>::empty()
    &&& b.password@ == Seq::<char>::empty()
}

/// The configuration a connection manager holds for a new connection made
/// from `b`: its connection fields, status "Server started", not connected.
pub open spec fn fresh_config(c: Broker, b: Broker) -> bool {
    &&& same_connection(c, b)
    &&& c.state@ == "Server started"@
    &&& !c.connected
}

fn fallback_broker() -> (r: Broker)
    ensures
        is_fallback_broker(r),
{
    Broker {
        client_id: String::from_str("test-client-01"),
        device_group: String::from_str("autogroup_Monitor"),
        device_id: String::from_str("FC_0103"),
        host: String::from_str("localhost"),
        password: String::new(),
        port: 1883,
        protocol: String::from_str("mqtt://"),
        username: String::new(),
        state: String::new(),
        connected: false,
    }
}

/// The settings for a connection to `b`, and the configuration that the
/// connection manager keeps for it.
pub fn connect_settings(b: &Broker) -> (r: (ConnectSettings, Broker))
    ensures
        settings_match(r.0, *b),
        fresh_config(r.1, *b),
{
    let credentials = if b.username.unicode_len() > 0 && b.password.unicode_len() > 0 {
        Some((b.username.clone(), b.password.clone()))
    } else {
        None
    };
    let tls_name = String::from_str("mqtts://");
    let settings = ConnectSettings {
        client_id: b.client_id.clone(),
        host: b.host.clone(),
        port: b.port,
        credentials,
        tls: b.protocol == tls_name,
        keep_alive_secs: KEEP_ALIVE_SECS,
    };
    let config = Broker {
        client_id: b.client_id.clone(),
        device_group: b.device_group.clone(),
        device_id: b.device_id.clone(),
        host: b.host.clone(),
        password: b.password.clone(),
        port: b.port,
        protocol: b.protocol.clone(),
        username: b.username.clone(),
        state: String::from_str("Server started"),
        connected: false,
    };
    (settings, config)
}

/// The connection settings for the stored broker record, or for the
/// fallback record where the store holds none.
pub fn settings_for(stored: Option<&Broker>) -> (r: (ConnectSettings, Broker))
    ensures
        match stored {
            Some(b) => settings_match(r.0, *b) && fresh_config(r.1, *b),
            None => exists|f: Broker|
                is_fallback_broker(f) && settings_match(r.0, f) && fresh_config(r.1, f),
        },
{
    match stored {
        Some(b) => connect_settings(b),
        None => {
            let f = fallback_broker();
            connect_settings(&f)
        },
    }
}

} // verus!
