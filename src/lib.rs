//! Keeps the version of a set of watched files current on a message broker.
//!
//! The library holds the decisions of the runtime pipeline: which directories
//! to watch, which change events to pass on, how repeated events are coalesced,
//! how a watched-file snapshot is updated once a version is known, which
//! measurements are published, and how the broker connection reacts to its own
//! events and to configuration changes. The runner performs the I/O that these
//! decisions ask for.
pub mod connection;
pub mod debounce;
pub mod files;
pub mod laws;
pub mod link;
pub mod logs;
pub mod pipeline;
pub mod resolve;
pub mod settings;
pub mod text;
pub mod watch;

pub use debounce::Bouncer;
pub use files::{File, FileCreateParams, FileUpdateParams, Files};
pub use link::MqttClient;
pub use settings::{Broker, BrokerUpdateParams, DBError};
pub use watch::FileWatcher;
