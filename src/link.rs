use vstd::prelude::*;
use crate::connection::{ConnectSettings, fresh_config, settings_for, settings_match};
use crate::settings::{Broker, same_connection};

verus! {

/// Message of an I/O failure that means the broker wants TLS and the
/// connection does not use it.
pub const TLS_REQUIRED_SYMPTOM: &'static str = "Promised boundary crossed: 256";

/// A failure reported by the broker connection's event stream, with the text
/// that describes it.
#[derive(Debug, Clone)]
pub enum LinkError {
    /// The protocol state went wrong.
    MqttState(String),
    /// An I/O failure inside the TLS layer.
    TlsIo(String),
    /// The host is no valid DNS name for TLS.
    TlsDnsName(String),
    /// Any other TLS or certificate failure.
    Tls(String),
    /// A plain I/O failure; `invalid_data` tells whether its kind was
    /// invalid data.
    Io { invalid_data: bool, message: String },
    /// The broker refused the connection, for instance on authentication.
    ConnectionRefused(String),
    /// The network or broker did not answer in time.
    Timeout,
    /// Any other failure.
    Other,
}

/// One item of the broker connection's event stream.
#[derive(Debug, Clone)]
pub enum LinkEvent {
    /// The broker acknowledged the connection.
    ConnAck,
    /// The broker answered a ping.
    PingResp,
    /// Any other packet from the broker.
    Incoming,
    /// A packet sent to the broker.
    Outgoing,
    /// The event stream failed.
    Failed(LinkError),
}

/// What the event-loop task does after an event.
#[derive(Debug, Clone, Copy, PartialEq, Eq, Structural)]
pub enum LinkNext {
    /// Poll again at once.
    Continue,
    /// Sleep this many seconds, then poll again.
    Pause(u64),
    /// End the task; only a refresh starts a new one.
    Stop,
}

/// The reaction to one event: a status to persist, if any, then what follows.
#[derive(Debug, Clone)]
pub struct LinkStep {
    /// `(connected, state)` to write into the stored broker record.
    pub status: Option<(bool, String)>,
    pub next: LinkNext,
}

/// Whether a failure is fatal: the task stops and waits for a refresh.
pub open spec fn is_fatal(e: LinkError) -> bool {
    match e {
        LinkError::MqttState(_) => false,
        LinkError::Io { invalid_data, message } =>
            invalid_data && message@ == TLS_REQUIRED_SYMPTOM@,
        LinkError::Timeout => false,
        _ => true,
    }
}

/// The reaction that the connection manager owes to an event.
pub open spec fn expected_step(ev: LinkEvent, status: Option<(bool, Seq<char>)>, next: LinkNext) -> bool {
    match ev {
        LinkEvent::ConnAck | LinkEvent::PingResp =>
            status == Some((true, "Connected"@)) && next == LinkNext::Continue,
        LinkEvent::Incoming | LinkEvent::Outgoing =>
            status.is_none() && next == LinkNext::Continue,
        LinkEvent::Failed(e) => match e {
            LinkError::MqttState(m) => status == Some((false, m@)) && next == LinkNext::Pause(1),
            LinkError::TlsIo(m) => status == Some((false, m@)) && next == LinkNext::Stop,
            LinkError::TlsDnsName(m) => status == Some((false, m@)) && next == LinkNext::Stop,
            LinkError::Tls(m) => status == Some((false, m@)) && next == LinkNext::Stop,
            LinkError::Io { invalid_data, message } =>
                if invalid_data && message@ == TLS_REQUIRED_SYMPTOM@ {
                    status == Some((false, "Needs SSL/TLS enabled"@)) && next == LinkNext::Stop
                } else {
                    status == Some((false, message@)) && next == LinkNext::Pause(10)
                },
            LinkError::ConnectionRefused(m) => status == Some((false, m@)) && next == LinkNext::Stop,
            LinkError::Timeout => status == Some((false, "Timeout"@)) && next == LinkNext::Pause(1),
            LinkError::Other =>
                status == Some((false, "Connection Error"@)) && next == LinkNext::Stop,
        },
    }
}

/// The view of a step's status.
pub open spec fn status_view(s: Option<(bool, String)>) -> Option<(bool, Seq<char>)> {
    match s {
        Some((c, t)) => Some((c, t@)),
        None => None,
    }
}

fn fail(message: String, next: LinkNext) -> (r: LinkStep)
    ensures
        status_view(r.status) == Some((false, message@)),
        r.next == next,
{
    LinkStep { status: Some((false, message)), next }
}

/// Classifies one event of the broker connection: acknowledgements mark the
/// broker connected; transient failures are persisted and followed by a
/// pause or a new poll; fatal failures are persisted and end the task.
pub fn on_link_event(ev: LinkEvent) -> (r: LinkStep)
    ensures
        expected_step(ev, status_view(r.status), r.next),
        r.next == LinkNext::Stop <==> (ev is Failed && is_fatal(ev->Failed_0)),
{
    match ev {
        LinkEvent::ConnAck | LinkEvent::PingResp => LinkStep {
            status: Some((true, String::from_str("Connected"))),
            next: LinkNext::Continue,
        },
        LinkEvent::Incoming | LinkEvent::Outgoing => LinkStep { status: None, next: LinkNext::Continue },
        LinkEvent::Failed(e) => match e {
            LinkError::MqttState(m) => fail(m, LinkNext::Pause(1)),
            LinkError::TlsIo(m) => fail(m, LinkNext::Stop),
            LinkError::TlsDnsName(m) => fail(m, LinkNext::Stop),
            LinkError::Tls(m) => fail(m, LinkNext::Stop),
            LinkError::Io { invalid_data, message } => {
                let symptom = String::from_str(TLS_REQUIRED_SYMPTOM);
                if invalid_data && message == symptom {
                    fail(String::from_str("Needs SSL/TLS enabled"), LinkNext::Stop)
                } else {
                    fail(message, LinkNext::Pause(10))
                }
            },
            LinkError::ConnectionRefused(m) => fail(m, LinkNext::Stop),
            LinkError::Timeout => fail(String::from_str("Timeout"), LinkNext::Pause(1)),
            LinkError::Other => fail(String::from_str("Connection Error"), LinkNext::Stop),
        },
    }
}

/// What a refresh of the connection manager asks of its runner.
#[derive(Debug, Clone)]
pub enum RefreshAction {
    /// The configuration is unchanged: keep the live connection and task.
    Keep,
    /// Abort the event-loop task `cancel` without waiting for it, and open a
    /// new connection with `settings`, whose event loop runs as task `start`.
    Restart { cancel: u64, start: u64, settings: ConnectSettings },
}

/// The connection manager: the configuration of the live connection and the
/// number of the event-loop task that serves it.
#[derive(Debug, Clone)]
pub struct MqttClient {
    pub current_client_config: Broker,
    pub event_loop_task: u64,
}

impl MqttClient {
    /// The manager for the stored broker record (the fallback record where
    /// the store holds none), with its first event-loop task numbered 0, and
    /// the settings that its first connection is opened with.
    pub fn init(stored: Option<&Broker>) -> (r: (MqttClient, ConnectSettings))
        ensures
            r.0.event_loop_task == 0,
            match stored {
                Some(b) => settings_match(r.1, *b) && fresh_config(r.0.current_client_config, *b),
                None => exists|f: Broker|
                    crate::connection::is_fallback_broker(f) && settings_match(r.1, f)
                        && fresh_config(r.0.current_client_config, f),
            },
    {
        let (settings, config) = settings_for(stored);
        (MqttClient { current_client_config: config, event_loop_task: 0 }, settings)
    }

    /// Brings the manager in line with the persisted broker record. Where its
    /// connection fields equal those of the live configuration nothing
    /// changes; otherwise exactly the current task is cancelled and a new
    /// connection is opened with the persisted parameters.
    pub fn refresh(&mut self, persisted: &Broker) -> (r: RefreshAction)
        ensures
            same_connection(old(self).current_client_config, *persisted) ==> {
                &&& r is Keep
                &&& *final(self) == *old(self)
            },
            !same_connection(old(self).current_client_config, *persisted) ==> {
                &&& r matches RefreshAction::Restart { cancel, start, settings }
                &&& cancel == old(self).event_loop_task
                &&& start == final(self).event_loop_task
                &&& start != cancel
                &&& settings_match(settings, *persisted)
                &&& fresh_config(final(self).current_client_config, *persisted)
            },
    {
        if self.current_client_config == *persisted {
            RefreshAction::Keep
        } else {
            let cancel = self.event_loop_task;
            let start = cancel.wrapping_add(1);
            let (settings, config) = settings_for(Some(persisted));
            self.current_client_config = config;
            self.event_loop_task = start;
            RefreshAction::Restart { cancel, start, settings }
        }
    }
}

} // verus!
