//! Decisions of the network manager, which searches for the viewer's Bonjour service and hands
//! what it finds to the log worker.

use vstd::prelude::*;

use crate::log_worker::{Message, MessageView};

verus! {

/// Seconds to wait before searching again for a Bonjour service that was not found.
pub const RETRY_TIMEOUT_SECS: u64 = 5;

/// Seconds a Bonjour browse waits for a service.
pub const BROWSE_TIMEOUT_SECS: u64 = 5;

/// Outcome of one Bonjour search.
#[derive(Debug)]
pub enum BonjourServiceStatus {
    /// Service name, address (`ip:port`) and whether to use SSL.
    ServiceFound(String, String, bool),
    TimedOut,
    Unresolved,
}

impl BonjourServiceStatus {
    /// What the network manager sends the log worker after this search: a request to connect
    /// to the service found, else nothing (it searches again after
    /// [`RETRY_TIMEOUT_SECS`]).
    pub fn connection_request<S>(self) -> (r: Option<Message<S>>)
        ensures
            match self {
                BonjourServiceStatus::ServiceFound(_, host, ssl) => r matches Some(m) && m@
                    == MessageView::<S>::ConnectToBonjourService(host@, ssl),
                _ => r is None,
            },
    {
        match self {
            BonjourServiceStatus::ServiceFound(_, host, use_ssl) => Some(
                Message::ConnectToBonjourService(host, use_ssl),
            ),
            _ => None,
        }
    }
}

} // verus!
