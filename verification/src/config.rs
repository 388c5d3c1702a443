//! Logger configuration, and its reading from the `NSLOG_*` environment variables.

use vstd::prelude::*;

use crate::connection::{
    default_connection_mode, BonjourServiceType, BonjourServiceTypeView, ConnectionMode,
    ConnectionModeView,
};
use crate::level::{spec_level_filter_from_name, LevelFilter};
use crate::text::{parse_u16, spec_parse_u16, spec_split_once, split_once, str_equals};

verus! {

/// Logger configuration object.
#[derive(Debug, Clone, PartialEq, Eq)]
pub struct Config {
    /// Max logging level.
    pub filter: LevelFilter,
    /// Type of connection to the desktop app (or log file path).
    pub mode: ConnectionMode,
    /// Whether each log call waits until its message has been written to the viewer's
    /// connection (or the log file) and the stream flushed.
    pub flush_messages: bool,
}

/// The value of a [`Config`].
pub struct ConfigView {
    pub filter: LevelFilter,
    pub mode: ConnectionModeView,
    pub flush_messages: bool,
}

impl View for Config {
    type V = ConfigView;

    open spec fn view(&self) -> ConfigView {
        ConfigView { filter: self.filter, mode: self.mode@, flush_messages: self.flush_messages }
    }
}

/// The text of an optional string.
pub open spec fn opt_view(s: Option<String>) -> Option<Seq<char>> {
    match s {
        Some(t) => Some(t@),
        None => None,
    }
}

/// The connection mode the environment asks for: `NSLOG_FILENAME` (a file) wins over
/// `NSLOG_HOST` (`host:port`, the default mode when malformed), which wins over a Bonjour
/// service (`NSLOG_BONJOUR_SERVICE`, else the default service); SSL is used unless
/// `NSLOG_USE_SSL` is `0`.
pub open spec fn mode_from_env(
    filename: Option<Seq<char>>,
    use_ssl: Option<Seq<char>>,
    host: Option<Seq<char>>,
    bonjour_service: Option<Seq<char>>,
) -> ConnectionModeView {
    match filename {
        Some(path) => ConnectionModeView::File(path),
        None => {
            let ssl = match use_ssl {
                Some(v) => v != "0"@,
                None => true,
            };
            match host {
                Some(h) => match spec_split_once(h, ':') {
                    Some((name, port)) => match spec_parse_u16(port) {
                        Some(p) => ConnectionModeView::Tcp(name, p, ssl),
                        None => default_connection_mode(),
                    },
                    None => default_connection_mode(),
                },
                None => ConnectionModeView::Bonjour(
                    match bonjour_service {
                        Some(s) => BonjourServiceTypeView::Custom(s, ssl),
                        None => BonjourServiceTypeView::Default(ssl),
                    },
                ),
            }
        },
    }
}

/// The level filter the environment asks for: `NSLOG_LEVEL` (default `WARN`), `Warn` when it
/// names no filter.
pub open spec fn filter_from_env(level: Option<Seq<char>>) -> LevelFilter {
    let raw = match level {
        Some(l) => l,
        None => "WARN"@,
    };
    match spec_level_filter_from_name(raw) {
        Some(f) => f,
        None => LevelFilter::Warn,
    }
}

/// The configuration the environment variables ask for; messages are flushed only when
/// `NSLOG_FLUSH` is `1`.
pub open spec fn config_from_env(
    filename: Option<Seq<char>>,
    use_ssl: Option<Seq<char>>,
    host: Option<Seq<char>>,
    bonjour_service: Option<Seq<char>>,
    flush: Option<Seq<char>>,
    level: Option<Seq<char>>,
) -> ConfigView {
    ConfigView {
        filter: filter_from_env(level),
        mode: mode_from_env(filename, use_ssl, host, bonjour_service),
        flush_messages: match flush {
            Some(v) => v == "1"@,
            None => false,
        },
    }
}

/// Without any of the variables, the logger logs up to warnings, to the default Bonjour service
/// with SSL, without flushing each message.
pub proof fn lemma_default_config()
    ensures
        config_from_env(None, None, None, None, None, None) == (ConfigView {
            filter: LevelFilter::Warn,
            mode: default_connection_mode(),
            flush_messages: false,
        }),
{
    reveal_strlit("WARN");
    let warn = "WARN"@;
    assert(!crate::level::eq_ignore_ascii_case(warn, seq!['O', 'F', 'F']));
    assert(!crate::level::eq_ignore_ascii_case(warn, seq!['E', 'R', 'R', 'O', 'R']));
    assert(crate::level::eq_ignore_ascii_case(warn, seq!['W', 'A', 'R', 'N']));
}

/// Without `NSLOG_FILENAME`, SSL is used exactly when `NSLOG_USE_SSL` is unset or other than
/// `0`, for the host given by `NSLOG_HOST` and for the Bonjour service, default or custom (named
/// by `NSLOG_BONJOUR_SERVICE`); only a malformed `NSLOG_HOST` falls back to the default mode.
/// With `NSLOG_FILENAME`, the file is used and no other variable matters.
pub proof fn lemma_ssl_follows_use_ssl(
    filename: Option<Seq<char>>,
    use_ssl: Option<Seq<char>>,
    host: Option<Seq<char>>,
    bonjour_service: Option<Seq<char>>,
)
    ensures
        ({
            let mode = config_from_env(filename, use_ssl, host, bonjour_service, None, None).mode;
            let ssl = use_ssl != Some("0"@);
            &&& filename matches Some(path) ==> mode == ConnectionModeView::File(path)
            &&& filename is None && host is None ==> mode is Bonjour && mode.requires_ssl() == ssl
            &&& filename is None && host is None && bonjour_service is Some ==> mode
                == ConnectionModeView::Bonjour(
                BonjourServiceTypeView::Custom(bonjour_service->0, ssl),
            )
            &&& filename is None && host is None && bonjour_service is None ==> mode
                == ConnectionModeView::Bonjour(BonjourServiceTypeView::Default(ssl))
            &&& filename is None && host is Some ==> (mode is Tcp && mode.requires_ssl() == ssl)
                || mode == default_connection_mode()
        }),
{
}

impl Config {
    /// A configuration with the given filter, connection mode and flushing.
    pub fn new(filter: LevelFilter, mode: ConnectionMode, flush_messages: bool) -> (r: Self)
        ensures
            r.filter == filter,
            r.mode == mode,
            r.flush_messages == flush_messages,
    {
        Self { filter, mode, flush_messages }
    }

    /// The configuration given by the values of the `NSLOG_FILENAME`, `NSLOG_USE_SSL`,
    /// `NSLOG_HOST`, `NSLOG_BONJOUR_SERVICE`, `NSLOG_FLUSH` and `NSLOG_LEVEL` variables.
    pub fn from_env_values(
        filename: Option<String>,
        use_ssl: Option<String>,
        host: Option<String>,
        bonjour_service: Option<String>,
        flush: Option<String>,
        level: Option<String>,
    ) -> (r: Self)
        ensures
            r@ == config_from_env(
                opt_view(filename),
                opt_view(use_ssl),
                opt_view(host),
                opt_view(bonjour_service),
                opt_view(flush),
                opt_view(level),
            ),
    {
        let mode = match filename {
            Some(path) => ConnectionMode::File(path),
            None => {
                let ssl = match &use_ssl {
                    Some(v) => !str_equals(v.as_str(), "0"),
                    None => true,
                };
                match &host {
                    Some(h) => match split_once(h.as_str(), ':') {
                        Some((name, port)) => match parse_u16(port) {
                            Some(p) => ConnectionMode::Tcp(name.to_owned(), p, ssl),
                            None => ConnectionMode::default(),
                        },
                        None => ConnectionMode::default(),
                    },
                    None => ConnectionMode::Bonjour(
                        match bonjour_service {
                            Some(s) => BonjourServiceType::Custom(s, ssl),
                            None => BonjourServiceType::Default(ssl),
                        },
                    ),
                }
            },
        };
        let flush_messages = match &flush {
            Some(v) => str_equals(v.as_str(), "1"),
            None => false,
        };
        let filter = match &level {
            Some(l) => LevelFilter::from_name(l.as_str()),
            None => LevelFilter::from_name("WARN"),
        };
        let filter = match filter {
            Some(f) => f,
            None => LevelFilter::Warn,
        };
        Self { filter, mode, flush_messages }
    }

    /// Reads the configuration through `getter`, which gives the value of an environment
    /// variable, if set.
    pub fn parse_with_getter<F: Fn(&str) -> Option<String>>(getter: F) -> (r: Self)
        requires
            forall|key: &str| call_requires(getter, (key,)),
        ensures
            exists|
                filename: Option<String>,
                use_ssl: Option<String>,
                host: Option<String>,
                bonjour_service: Option<String>,
                flush: Option<String>,
                level: Option<String>,
            |
                {
                    &&& call_ensures(getter, ("NSLOG_FILENAME",), filename)
                    &&& call_ensures(getter, ("NSLOG_USE_SSL",), use_ssl)
                    &&& call_ensures(getter, ("NSLOG_HOST",), host)
                    &&& call_ensures(getter, ("NSLOG_BONJOUR_SERVICE",), bonjour_service)
                    &&& call_ensures(getter, ("NSLOG_FLUSH",), flush)
                    &&& call_ensures(getter, ("NSLOG_LEVEL",), level)
                    &&& r@ == config_from_env(
                        opt_view(filename),
                        opt_view(use_ssl),
                        opt_view(host),
                        opt_view(bonjour_service),
                        opt_view(flush),
                        opt_view(level),
                    )
                },
    {
        let filename = getter("NSLOG_FILENAME");
        let use_ssl = getter("NSLOG_USE_SSL");
        let host = getter("NSLOG_HOST");
        let bonjour_service = getter("NSLOG_BONJOUR_SERVICE");
        let flush = getter("NSLOG_FLUSH");
        let level = getter("NSLOG_LEVEL");
        let ghost values = (filename, use_ssl, host, bonjour_service, flush, level);
        let r = Self::from_env_values(filename, use_ssl, host, bonjour_service, flush, level);
        assert(call_ensures(getter, ("NSLOG_FILENAME",), values.0));
        r
    }
}

} // verus!
