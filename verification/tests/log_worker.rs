use nslogger::network_manager::BonjourServiceStatus;
use nslogger::{
    Action, BonjourServiceType, Config, ConnectionMode, ConnectionState, Domain, Error, Event,
    Level, LevelFilter, LogMessage, LogWorker, Message, MessagePartKey, SEQUENCE_NB_OFFSET,
};

const THREAD: &str = "ThreadId(2)";

type Worker = LogWorker<u32, Vec<u8>>;

/// Performs the worker's actions against in-memory streams until it waits for a message or
/// stops. Returns the last action, the signals raised and, when closed, the stream's bytes.
struct Driver {
    worker: Worker,
    signals: Vec<u32>,
    closed: Option<Vec<u8>>,
    opened: Vec<String>,
    connected: Vec<(String, bool)>,
    browses: Vec<BonjourServiceType>,
    fail_next_write: bool,
}

impl Driver {
    fn new() -> Self {
        Driver {
            worker: LogWorker::new(),
            signals: Vec::new(),
            closed: None,
            opened: Vec::new(),
            connected: Vec::new(),
            browses: Vec::new(),
            fail_next_write: false,
        }
    }

    fn run(&mut self, event: Event<u32, Vec<u8>>) -> Action<u32, Vec<u8>> {
        let mut event = event;
        loop {
            assert!(self.worker.accepts(&event));
            let action = self.worker.step(event);
            event = match action {
                Action::OpenFile(path) => {
                    self.opened.push(path);
                    Event::Opened(Ok(Vec::new()))
                },
                Action::ConnectRemote(host, port, ssl) => {
                    assert!(port.is_none());
                    self.connected.push((host, ssl));
                    Event::Opened(Ok(Vec::new()))
                },
                Action::Browse(service) => {
                    self.browses.push(service);
                    Event::BrowseRequested(true)
                },
                Action::SignalReady => Event::ReadySignaled,
                Action::BuildClientInfo => Event::ClientInfo(LogMessage::client_info_from(
                    Some("Linux".to_string()),
                    None,
                    Some("tests".to_string()),
                    THREAD.to_string(),
                )),
                Action::Write(mut stream, bytes) => {
                    if self.fail_next_write {
                        self.fail_next_write = false;
                        Event::Written(stream, Err(std::io::Error::other("broken pipe")))
                    } else {
                        stream.extend_from_slice(&bytes);
                        Event::Written(stream, Ok(()))
                    }
                },
                Action::Flush(stream) => Event::Flushed(stream, Ok(())),
                Action::Signal(s) => {
                    self.signals.push(s);
                    Event::Signaled
                },
                Action::Close(stream) => {
                    self.closed = Some(stream);
                    Event::Closed(Ok(()))
                },
                other => return other,
            };
        }
    }

    fn send(&mut self, message: Message<u32>) -> Action<u32, Vec<u8>> {
        self.run(Event::Received(Some(message)))
    }

    fn close(&mut self) -> Vec<u8> {
        match self.run(Event::Received(None)) {
            Action::Finish(Ok(())) => {},
            _ => panic!("worker did not finish"),
        }
        self.closed.take().expect("stream closed")
    }
}

fn be32_at(buf: &[u8], at: usize) -> u32 {
    u32::from_be_bytes(buf[at..at + 4].try_into().unwrap())
}

fn log(text: &str, domain: Domain) -> LogMessage {
    LogMessage::log(Level::Warn, THREAD.to_string())
        .with_domain(domain)
        .message(text.to_string())
}

fn started() -> Driver {
    let mut d = Driver::new();
    assert!(matches!(d.run(Event::Start), Action::Receive));
    d
}

#[test]
fn logs_to_file() {
    let mut d = started();
    assert_eq!(vec![BonjourServiceType::Default(true)], d.browses);
    assert!(matches!(
        d.send(Message::SwitchConnection(ConnectionMode::File("/tmp/out.log".to_string()))),
        Action::Receive
    ));
    assert_eq!(vec!["/tmp/out.log".to_string()], d.opened);
    let first_msg = "message logged to file";
    assert!(matches!(d.send(Message::AddLog(log(first_msg, Domain::App), Some(1))), Action::Receive));
    assert!(matches!(
        d.send(Message::AddLog(log("other message logged to file", Domain::DB), Some(2))),
        Action::Receive
    ));
    assert_eq!(vec![1, 2], d.signals);
    let buf = d.close();
    /*
     * First message should be a client info.
     */
    assert!(buf.len() > SEQUENCE_NB_OFFSET + 4);
    let msg_size = be32_at(&buf, 0) as usize;
    let msg_type = be32_at(&buf, 8);
    assert_eq!(3, msg_type);
    assert_eq!(0, be32_at(&buf, SEQUENCE_NB_OFFSET));
    /*
     * Second message should be a plain log message.
     */
    let next_msg_offset = msg_size + 4;
    let next_msg_size = be32_at(&buf, next_msg_offset) as usize;
    let next_msg_part_count =
        u16::from_be_bytes(buf[(next_msg_offset + 4)..(next_msg_offset + 6)].try_into().unwrap());
    assert_eq!(8, next_msg_part_count);
    assert_eq!(0, be32_at(&buf, next_msg_offset + 8));
    assert_eq!(1, be32_at(&buf, next_msg_offset + SEQUENCE_NB_OFFSET));
    let msg_string_offset = next_msg_offset + next_msg_size + 4 - first_msg.len();
    let msg = String::from_utf8(buf[msg_string_offset..(msg_string_offset + first_msg.len())].to_vec())
        .expect("a valid string");
    assert_eq!(first_msg, msg);
    /*
     * Last log message should be yet another plain log message.
     */
    let last_msg_offset = next_msg_offset + next_msg_size + 4;
    let last_msg_size = be32_at(&buf, last_msg_offset) as usize;
    assert_eq!(0, be32_at(&buf, last_msg_offset + 8));
    assert_eq!(2, be32_at(&buf, last_msg_offset + SEQUENCE_NB_OFFSET));
    assert_eq!(last_msg_offset + last_msg_size + 4, buf.len());
}

#[test]
fn switches_from_file_to_bonjour() {
    let mut d = started();
    d.send(Message::SwitchConnection(ConnectionMode::File("a.log".to_string())));
    d.send(Message::AddLog(log("message logged to file", Domain::App), None));
    assert_eq!(ConnectionState::Ready, d.worker.connection_state());
    assert!(matches!(
        d.send(Message::SwitchConnection(ConnectionMode::Bonjour(BonjourServiceType::Default(false)))),
        Action::Receive
    ));
    assert_eq!(vec![BonjourServiceType::Default(true), BonjourServiceType::Default(false)], d.browses);
    assert_eq!(ConnectionState::Connecting, d.worker.connection_state());
    d.send(Message::AddLog(log("queued until a service is found", Domain::App), None));
    assert_eq!(1, d.worker.queued_messages());
    assert!(matches!(
        d.send(Message::ConnectToBonjourService("127.0.0.1:50000".to_string(), false)),
        Action::Receive
    ));
    assert_eq!(vec![("127.0.0.1:50000".to_string(), false)], d.connected);
    assert_eq!(0, d.worker.queued_messages());
    let buf = d.close();
    // client info (seq 0), then the message queued while connecting, numbered 1 after the
    // disconnect from the file.
    let first = be32_at(&buf, 0) as usize + 4;
    assert_eq!(0, be32_at(&buf, SEQUENCE_NB_OFFSET));
    assert_eq!(1, be32_at(&buf, first + SEQUENCE_NB_OFFSET));
    assert_eq!(buf.len(), first + be32_at(&buf, first) as usize + 4);
}

#[test]
fn browses_for_custom_bonjour_service() {
    let mut d = started();
    d.send(Message::SwitchConnection(ConnectionMode::File("d.log".to_string())));
    assert_eq!(ConnectionState::Connected, d.worker.connection_state());
    let custom = BonjourServiceType::Custom("_viewer._tcp".to_string(), true);
    assert!(matches!(d.send(Message::SwitchConnection(ConnectionMode::Bonjour(custom.clone()))), Action::Receive));
    assert_eq!(vec![BonjourServiceType::Default(true), custom], d.browses);
    assert_eq!(ConnectionState::Connecting, d.worker.connection_state());
}

#[test]
fn switches_from_bonjour_to_file() {
    let mut d = started();
    d.send(Message::AddLog(log("message first logged to Bonjour", Domain::App), None));
    assert_eq!(1, d.worker.queued_messages());
    assert_eq!(ConnectionState::Connecting, d.worker.connection_state());
    d.send(Message::SwitchConnection(ConnectionMode::File("b.log".to_string())));
    assert_eq!(vec!["b.log".to_string()], d.opened);
    assert_eq!(ConnectionState::Connected, d.worker.connection_state());
    d.send(Message::AddLog(log("message shifted from Bonjour to file", Domain::App), None));
    assert_eq!(0, d.worker.queued_messages());
    let buf = d.close();
    let first = be32_at(&buf, 0) as usize + 4;
    let second = first + be32_at(&buf, first) as usize + 4;
    assert_eq!(1, be32_at(&buf, first + SEQUENCE_NB_OFFSET));
    assert_eq!(2, be32_at(&buf, second + SEQUENCE_NB_OFFSET));
}

#[test]
fn failed_write_keeps_message_and_reconnects() {
    let mut d = started();
    d.send(Message::SwitchConnection(ConnectionMode::File("c.log".to_string())));
    d.fail_next_write = true;
    d.send(Message::AddLog(log("kept", Domain::App), None));
    // the client info write failed: disconnect, reopen the file; the queue is kept
    assert_eq!(vec!["c.log".to_string(), "c.log".to_string()], d.opened);
    assert_eq!(2, d.worker.queued_messages());
    assert_eq!(ConnectionState::Connected, d.worker.connection_state());
    d.send(Message::AddLog(log("next", Domain::App), None));
    assert_eq!(0, d.worker.queued_messages());
    let buf = d.close();
    // a second client info, then the failed client info, "kept" (1) and "next" (1 again: the
    // numbering restarted at the disconnect)
    let mut offsets = Vec::new();
    let mut at = 0;
    while at < buf.len() {
        offsets.push(at);
        at += be32_at(&buf, at) as usize + 4;
    }
    assert_eq!(4, offsets.len());
    assert_eq!(3, be32_at(&buf, offsets[0] + 8));
    assert_eq!(3, be32_at(&buf, offsets[1] + 8));
    assert_eq!(1, be32_at(&buf, offsets[2] + SEQUENCE_NB_OFFSET));
    assert_eq!(1, be32_at(&buf, offsets[3] + SEQUENCE_NB_OFFSET));
}

#[test]
fn failures_stop_the_worker() {
    let mut w: Worker = LogWorker::new();
    assert!(matches!(w.step(Event::Start), Action::Browse(BonjourServiceType::Default(true))));
    assert!(matches!(w.step(Event::BrowseRequested(false)), Action::Finish(Err(Error::ChannelNotAvailable))));
    assert!(w.is_finished());

    let mut d = started();
    assert!(matches!(
        d.worker.step(Event::Received(Some(Message::SwitchConnection(ConnectionMode::Tcp(
            "localhost".to_string(),
            1,
            false
        ))))),
        Action::Receive
    ));
    // not disconnected (Connecting): no new connection attempt
    assert_eq!(ConnectionState::Connecting, d.worker.connection_state());
    let mut w: Worker = LogWorker::new();
    w.step(Event::Start);
    w.step(Event::BrowseRequested(true));
    w.step(Event::ReadySignaled);
    assert!(matches!(
        w.step(Event::Received(Some(Message::SwitchConnection(ConnectionMode::File("x".to_string()))))),
        Action::OpenFile(_)
    ));
    assert!(matches!(
        w.step(Event::Opened(Err(Error::InvalidHost))),
        Action::Finish(Err(Error::InvalidHost))
    ));
    assert!(!w.accepts(&Event::Start));
}

#[test]
fn connects_to_host_when_disconnected() {
    let mut w: Worker = LogWorker::new();
    w.step(Event::Start);
    w.step(Event::BrowseRequested(true));
    w.step(Event::ReadySignaled);
    w.step(Event::Received(Some(Message::SwitchConnection(ConnectionMode::File("x".to_string())))));
    w.step(Event::Opened(Ok(Vec::new())));
    // with a stream: disconnect, then connect to the host at its port
    assert!(matches!(
        w.step(Event::Received(Some(Message::SwitchConnection(ConnectionMode::Tcp(
            "example.org".to_string(),
            50000,
            true
        ))))),
        Action::ConnectRemote(ref host, Some(50000), true) if host == "example.org"
    ));
    assert_eq!("example.org", match w.connection_mode() {
        ConnectionMode::Tcp(h, _, _) => h.as_str(),
        _ => "",
    });
}

#[test]
fn network_manager_requests_connection_when_found() {
    let found = BonjourServiceStatus::ServiceFound("viewer".to_string(), "10.0.0.1:5000".to_string(), true);
    match found.connection_request::<u32>() {
        Some(Message::ConnectToBonjourService(host, ssl)) => {
            assert_eq!("10.0.0.1:5000", host);
            assert!(ssl);
        },
        _ => panic!("expected a connection request"),
    }
    assert!(BonjourServiceStatus::TimedOut.connection_request::<u32>().is_none());
    assert!(BonjourServiceStatus::Unresolved.connection_request::<u32>().is_none());
}

/// What the logger does for each log call: filter by level, then build the message.
fn logged(config: &Config, level: Level, target: &str, text: &str) -> Option<LogMessage> {
    if !config.filter.allows(level) {
        return None;
    }
    Some(
        LogMessage::log(level, THREAD.to_string())
            .with_source_descriptor(Some("tests/lib.rs".to_string()), Some(12), Some(target.to_string()))
            .with_domain(Domain::from_str(target).unwrap())
            .message(text.to_string()),
    )
}

fn contains(haystack: &[u8], needle: &[u8]) -> bool {
    haystack.windows(needle.len()).any(|w| w == needle)
}

#[test]
fn logs_simple_messages() {
    let config = Config::parse_with_getter(|_| None);
    assert_eq!(LevelFilter::Warn, config.filter);
    assert!(logged(&config, Level::Info, "lib", "This is an NSLogger info message").is_none());
    assert!(logged(&config, Level::Trace, "lib", "This is an NSLogger trace message").is_none());
    let warn = logged(&config, Level::Warn, "lib", "This is an NSLogger warn message").unwrap();
    assert!(contains(warn.bytes(), b"This is an NSLogger warn message"));
    let error = logged(&config, Level::Error, "lib", "This is an NSLogger error message").unwrap();
    assert!(contains(error.bytes(), b"This is an NSLogger error message"));
    let mut d = started();
    d.send(Message::SwitchConnection(ConnectionMode::File("simple.log".to_string())));
    d.send(Message::AddLog(warn, None));
    d.send(Message::AddLog(error, None));
    let buf = d.close();
    assert!(contains(&buf, b"This is an NSLogger warn message"));
    assert!(contains(&buf, b"This is an NSLogger error message"));
}

#[test]
fn logs_messages_with_targets() {
    let config = Config::new(LevelFilter::Info, ConnectionMode::default(), false);
    for (target, text) in [
        ("App", "Should find App domain"),
        ("DB", "Should find DB domain"),
        ("Custom", "Should create custom domain"),
    ] {
        let msg = logged(&config, Level::Info, target, text).unwrap();
        let mut function_part = vec![MessagePartKey::FunctionName.code(), 0];
        function_part.extend_from_slice(&(target.len() as u32).to_be_bytes());
        function_part.extend_from_slice(target.as_bytes());
        assert!(contains(msg.bytes(), &function_part));
        let mut tag_part = vec![MessagePartKey::Tag.code(), 0];
        tag_part.extend_from_slice(&(target.len() as u32).to_be_bytes());
        tag_part.extend_from_slice(target.as_bytes());
        assert!(contains(msg.bytes(), &tag_part));
        assert!(contains(msg.bytes(), text.as_bytes()));
    }
    assert!(logged(&config, Level::Debug, "App", "filtered").is_none());
}

#[test]
fn level_filter_is_a_maximum() {
    assert!(LevelFilter::Warn.allows(Level::Error));
    assert!(LevelFilter::Warn.allows(Level::Warn));
    assert!(!LevelFilter::Warn.allows(Level::Info));
    assert!(!LevelFilter::Off.allows(Level::Error));
    assert!(LevelFilter::Trace.allows(Level::Trace));
}
