use vstd::prelude::*;

verus! {

/// Connection parameters of the message broker, with the connection status
/// that the connection manager writes back.
#[derive(Debug, Clone)]
pub struct Broker {
    pub client_id: String,
    pub device_group: String,
    pub device_id: String,
    pub host: String,
    pub password: String,
    pub port: u16,
    pub protocol: String,
    pub username: String,
    pub state: String,
    pub connected: bool,
}

/// Two broker records that describe the same connection: every field but the
/// status fields `state` and `connected` agrees.
pub open spec fn same_connection(a: Broker, b: Broker) -> bool {
    &&& a.client_id@ == b.client_id@
    &&& a.device_group@ == b.device_group@
    &&& a.device_id@ == b.device_id@
    &&& a.host@ == b.host@
    &&& a.port == b.port
    &&& a.protocol@ == b.protocol@
    &&& a.username@ == b.username@
    &&& a.password@ == b.password@
}

/// Two broker records whose every field agrees.
pub open spec fn same_broker(a: Broker, b: Broker) -> bool {
    &&& same_connection(a, b)
    &&& a.state@ == b.state@
    &&& a.connected == b.connected
}

impl PartialEq for Broker {
    /// Compares the connection-relevant fields only.
    fn eq(&self, other: &Broker) -> (r: bool) {
        self.client_id == other.client_id && self.device_group == other.device_group
            && self.device_id == other.device_id && self.host == other.host && self.port
            == other.port && self.protocol == other.protocol && self.username == other.username
            && self.password == other.password
    }
}

impl vstd::std_specs::cmp::PartialEqSpecImpl for Broker {
    open spec fn obeys_eq_spec() -> bool {
        true
    }

    open spec fn eq_spec(&self, other: &Broker) -> bool {
        same_connection(*self, *other)
    }
}

impl Broker {
    /// A copy of this record.
    pub fn snapshot(&self) -> (r: Broker)
        ensures
            same_broker(r, *self),
    {
        Broker {
            client_id: self.client_id.clone(),
            device_group: self.device_group.clone(),
            device_id: self.device_id.clone(),
            host: self.host.clone(),
            password: self.password.clone(),
            port: self.port,
            protocol: self.protocol.clone(),
            username: self.username.clone(),
            state: self.state.clone(),
            connected: self.connected,
        }
    }

    /// The record written into an empty store: client id `eh-mqtt-client-1`,
    /// host `localhost`, port 1883, protocol `mqtt://`, every other text empty
    /// and not connected.
    pub fn initial() -> (r: Broker)
        ensures
            r.client_id@ == "eh-mqtt-client-1"@,
            r.host@ == "localhost"@,
            r.port == 1883,
            r.protocol@ == "mqtt://"@,
            r.device_group@ == Seq::<char>::empty(),
            r.device_id@ == Seq::<char>::empty(),
            r.username@ == Seq::<char>::empty(),
            r.password@ == Seq::<char>::empty(),
            r.state@ == Seq::<char>::empty(),
            !r.connected,
    {
        Broker {
            client_id: String::from_str("eh-mqtt-client-1"),
            device_group: String::new(),
            device_id: String::new(),
            host: String::from_str("localhost"),
            password: String::new(),
            port: 1883,
            protocol: String::from_str("mqtt://"),
            username: String::new(),
            state: String::new(),
            connected: false,
        }
    }

    /// The same record with a new connection status; the connection fields
    /// are kept.
    pub fn with_status(self, connected: bool, state: &str) -> (r: Broker)
        ensures
            same_connection(r, self),
            r.connected == connected,
            r.state@ == state@,
    {
        Broker { connected, state: String::from_str(state), ..self }
    }

    /// Applies an edit of the administrator: each field that `params` holds
    /// replaces the stored one. The status fields are never touched.
    pub fn apply_update(&mut self, params: BrokerUpdateParams)
        ensures
            final(self).client_id@ == opt_or(params.client_id, old(self).client_id)@,
            final(self).device_group@ == opt_or(params.device_group, old(self).device_group)@,
            final(self).device_id@ == opt_or(params.device_id, old(self).device_id)@,
            final(self).host@ == opt_or(params.host, old(self).host)@,
            final(self).password@ == opt_or(params.password, old(self).password)@,
            final(self).protocol@ == opt_or(params.protocol, old(self).protocol)@,
            final(self).username@ == opt_or(params.username, old(self).username)@,
            final(self).port == opt_or(params.port, old(self).port),
            final(self).state@ == old(self).state@,
            final(self).connected == old(self).connected,
    {
        if let Some(v) = params.client_id {
            self.client_id = v;
        }
        if let Some(v) = params.device_group {
            self.device_group = v;
        }
        if let Some(v) = params.device_id {
            self.device_id = v;
        }
        if let Some(v) = params.host {
            self.host = v;
        }
        if let Some(v) = params.password {
            self.password = v;
        }
        if let Some(v) = params.protocol {
            self.protocol = v;
        }
        if let Some(v) = params.username {
            self.username = v;
        }
        if let Some(v) = params.port {
            self.port = v;
        }
    }
}

/// The value an optional edit leaves: the new one if given, else the old one.
pub open spec fn opt_or<T>(o: Option<T>, old_value: T) -> T {
    match o {
        Some(v) => v,
        None => old_value,
    }
}

/// An edit of the broker settings; each field that is given replaces the
/// stored one.
#[derive(Debug, Clone, Default)]
pub struct BrokerUpdateParams {
    pub client_id: Option<String>,
    pub device_group: Option<String>,
    pub device_id: Option<String>,
    pub host: Option<String>,
    pub port: Option<u16>,
    pub username: Option<String>,
    pub password: Option<String>,
    pub protocol: Option<String>,
}

/// Errors of an operation on the persisted store.
#[derive(Debug, Clone)]
pub enum DBError {
    /// The key is not in the store.
    KeyNotFound(String),
    /// The store could not be written.
    WriteError(String),
}

} // verus!
