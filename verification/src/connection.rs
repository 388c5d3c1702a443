//! How the logger reaches the desktop viewer: a direct TCP connection, a Bonjour service, or a
//! file on disk.

use vstd::prelude::*;

verus! {

/// Bonjour service type searched by default.
pub const DEFAULT_BONJOUR_SERVICE: &'static str = "_nslogger._tcp.";

/// Bonjour service type searched by default when SSL is used.
pub const DEFAULT_BONJOUR_SERVICE_SSL: &'static str = "_nslogger-ssl._tcp.";

/// Which Bonjour service to browse for.
#[derive(Debug, Clone, PartialEq, Eq)]
pub enum BonjourServiceType {
    /// Custom Bonjour service handle, and whether to use SSL
    Custom(String, bool),
    /// Defines whether to use SSL
    Default(bool),
}

/// The value of a [`BonjourServiceType`], with texts as character sequences.
pub enum BonjourServiceTypeView {
    Custom(Seq<char>, bool),
    Default(bool),
}

impl View for BonjourServiceType {
    type V = BonjourServiceTypeView;

    open spec fn view(&self) -> BonjourServiceTypeView {
        match self {
            BonjourServiceType::Custom(name, ssl) => BonjourServiceTypeView::Custom(name@, *ssl),
            BonjourServiceType::Default(ssl) => BonjourServiceTypeView::Default(*ssl),
        }
    }
}

impl BonjourServiceTypeView {
    /// Whether connections found through this service use SSL.
    pub open spec fn requires_ssl(self) -> bool {
        match self {
            BonjourServiceTypeView::Custom(_, ssl) => ssl,
            BonjourServiceTypeView::Default(ssl) => ssl,
        }
    }

    /// The service type to browse for, and whether to use SSL with what is found.
    pub open spec fn browse_target(self) -> (Seq<char>, bool) {
        match self {
            BonjourServiceTypeView::Custom(name, ssl) => (name, ssl),
            BonjourServiceTypeView::Default(ssl) => if ssl {
                (DEFAULT_BONJOUR_SERVICE_SSL@, true)
            } else {
                (DEFAULT_BONJOUR_SERVICE@, false)
            },
        }
    }
}

impl BonjourServiceType {
    /// Whether connections found through this service use SSL.
    pub fn requires_ssl(&self) -> (r: bool)
        ensures
            r == self@.requires_ssl(),
    {
        match self {
            BonjourServiceType::Custom(_, use_ssl) => *use_ssl,
            BonjourServiceType::Default(use_ssl) => *use_ssl,
        }
    }

    /// The service type to browse for, and whether to use SSL with what is found: a custom
    /// service as given, else the default service (with or without SSL).
    pub fn browse_target(&self) -> (r: (String, bool))
        ensures
            (r.0@, r.1) == self@.browse_target(),
    {
        match self {
            BonjourServiceType::Custom(name, use_ssl) => (name.clone(), *use_ssl),
            BonjourServiceType::Default(use_ssl) => {
                if *use_ssl {
                    (DEFAULT_BONJOUR_SERVICE_SSL.to_owned(), true)
                } else {
                    (DEFAULT_BONJOUR_SERVICE.to_owned(), false)
                }
            },
        }
    }
}

/// Where log messages go.
#[derive(Debug, Clone, PartialEq, Eq)]
pub enum ConnectionMode {
    /// Host name, port and whether to use SSL.
    Tcp(String, u16, bool),
    Bonjour(BonjourServiceType),
    /// Path of the log file.
    File(String),
}

/// The value of a [`ConnectionMode`], with texts as character sequences.
pub enum ConnectionModeView {
    Tcp(Seq<char>, u16, bool),
    Bonjour(BonjourServiceTypeView),
    File(Seq<char>),
}

impl View for ConnectionMode {
    type V = ConnectionModeView;

    open spec fn view(&self) -> ConnectionModeView {
        match self {
            ConnectionMode::Tcp(host, port, ssl) => ConnectionModeView::Tcp(host@, *port, *ssl),
            ConnectionMode::Bonjour(service) => ConnectionModeView::Bonjour(service@),
            ConnectionMode::File(path) => ConnectionModeView::File(path@),
        }
    }
}

impl ConnectionModeView {
    /// Whether the connection uses SSL; a file never does.
    pub open spec fn requires_ssl(self) -> bool {
        match self {
            ConnectionModeView::Tcp(_, _, ssl) => ssl,
            ConnectionModeView::Bonjour(service) => service.requires_ssl(),
            ConnectionModeView::File(_) => false,
        }
    }
}

/// The default connection: the default Bonjour service, with SSL.
pub open spec fn default_connection_mode() -> ConnectionModeView {
    ConnectionModeView::Bonjour(BonjourServiceTypeView::Default(true))
}

impl Default for ConnectionMode {
    fn default() -> (r: Self)
        ensures
            r@ == default_connection_mode(),
    {
        ConnectionMode::Bonjour(BonjourServiceType::Default(true))
    }
}

impl ConnectionMode {
    /// Whether the connection uses SSL; a file never does.
    pub fn requires_ssl(&self) -> (r: bool)
        ensures
            r == self@.requires_ssl(),
    {
        match self {
            ConnectionMode::Tcp(_, _, use_ssl) => *use_ssl,
            ConnectionMode::Bonjour(service_type) => service_type.requires_ssl(),
            ConnectionMode::File(_) => false,
        }
    }
}

} // verus!
