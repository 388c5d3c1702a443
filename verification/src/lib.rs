//! A client library for the NSLogger desktop log viewer: the wire format of log messages, the
//! logger configuration read from the environment, and the decisions of the log worker and of
//! the Bonjour network manager. The I/O around them (sockets, files, the async runtime, Bonjour
//! discovery) is left to the caller, which performs the actions the log worker asks for.

pub mod config;
pub mod connection;
pub mod error;
pub mod level;
pub mod log_message;
pub mod log_worker;
pub mod network_manager;
pub mod text;
pub mod wire;

pub use config::Config;
pub use connection::{BonjourServiceType, ConnectionMode};
pub use error::Error;
pub use level::{Level, LevelFilter};
pub use log_message::{
    Domain, LogMessage, LogMessageBuilder, LogMessageType, MessageData, MessagePart,
    MessagePartKey, MessagePartType, SEQUENCE_NB_OFFSET,
};
pub use log_worker::{Action, AfterSetup, ConnectionState, Event, LogWorker, Message, Phase};
pub use network_manager::BonjourServiceStatus;
