use nslogger::log_message::mark_time_text;
use nslogger::{
    Domain, Level, LogMessage, LogMessageBuilder, LogMessageType, MessageData, MessagePartKey,
    MessagePartType, SEQUENCE_NB_OFFSET,
};

const THREAD: &str = "ThreadId(1)";

fn be32_at(buf: &[u8], at: usize) -> u32 {
    u32::from_be_bytes(buf[at..at + 4].try_into().unwrap())
}

fn be16_at(buf: &[u8], at: usize) -> u16 {
    u16::from_be_bytes(buf[at..at + 2].try_into().unwrap())
}

fn contains(haystack: &[u8], needle: &[u8]) -> bool {
    haystack.windows(needle.len()).any(|w| w == needle)
}

/// Splits a serialized message into its parts: (key, type, payload).
fn parts_of(buf: &[u8]) -> Vec<(u8, u8, Vec<u8>)> {
    let count = be16_at(buf, 4) as usize;
    let mut parts = Vec::new();
    let mut at = 6;
    for _ in 0..count {
        let key = buf[at];
        let typ = buf[at + 1];
        let len = match typ {
            4 => 8,
            3 => 4,
            2 => 2,
            _ => {
                let l = be32_at(buf, at + 2) as usize;
                at += 4;
                l
            },
        };
        parts.push((key, typ, buf[at + 2..at + 2 + len].to_vec()));
        at += 2 + len;
    }
    assert_eq!(at, buf.len());
    parts
}

#[test]
fn builds_smallest_message() {
    let thread_id_str = THREAD.to_string();
    let id_string_len = thread_id_str.len();
    let builder = LogMessageBuilder::new(LogMessageType::Log, thread_id_str.clone());
    assert_eq!(5, builder.parts().len());
    assert_eq!(Some(38 + id_string_len), builder.size());
    let ts_s = match &builder.parts()[2].1 {
        MessageData::Int64(v) => *v,
        _ => panic!("timestamp seconds"),
    };
    let ts_ms = match &builder.parts()[3].1 {
        MessageData::Int16(v) => *v,
        _ => panic!("timestamp milliseconds"),
    };
    let msg = builder.freeze();

    let mut expected = Vec::with_capacity(38 + id_string_len);
    expected.extend_from_slice(&(34 + id_string_len as u32).to_be_bytes());
    expected.extend_from_slice(&5_u16.to_be_bytes());
    expected.push(MessagePartKey::MessageType.code());
    expected.push(MessagePartType::Int32.code());
    expected.extend(&LogMessageType::Log.code().to_be_bytes());
    expected.push(MessagePartKey::MessageSeq.code());
    expected.push(MessagePartType::Int32.code());
    expected.extend(&[0_u8; 4]);
    expected.push(MessagePartKey::TimestampS.code());
    expected.push(MessagePartType::Int64.code());
    expected.extend(&ts_s.to_be_bytes());
    expected.push(MessagePartKey::TimestampMs.code());
    expected.push(MessagePartType::Int16.code());
    expected.extend(&ts_ms.to_be_bytes());
    expected.push(MessagePartKey::ThreadId.code());
    expected.push(MessagePartType::String.code());
    expected.extend(&(id_string_len as u32).to_be_bytes());
    expected.extend(thread_id_str.as_bytes());
    assert_eq!(msg.bytes(), &expected);
}

#[test]
fn parses_domain_from_string() {
    assert_eq!(Domain::App, Domain::from_str("App").unwrap());
    assert_eq!(Domain::DB, Domain::from_str("DB").unwrap());
    assert_eq!(
        Domain::Custom("CustomTag".to_string()),
        Domain::from_str("CustomTag").unwrap()
    );
}

#[test]
fn domain_names_round_trip() {
    let all = [
        Domain::App,
        Domain::View,
        Domain::Layout,
        Domain::Controller,
        Domain::Routing,
        Domain::Service,
        Domain::Network,
        Domain::Model,
        Domain::Cache,
        Domain::DB,
        Domain::IO,
    ];
    for d in all {
        assert_eq!(d, Domain::from_str(&d.name()).unwrap());
    }
    assert_eq!("IO", Domain::IO.name());
    assert_eq!("MyCustomDomain", Domain::Custom("MyCustomDomain".to_string()).name());
    assert_eq!(Domain::Custom("app".to_string()), Domain::from_str("app").unwrap());
    assert_eq!(Domain::Custom(String::new()), Domain::from_str("").unwrap());
}

#[test]
fn part_codes_match_the_protocol() {
    assert_eq!(0, MessagePartKey::MessageType.code());
    assert_eq!(10, MessagePartKey::MessageSeq.code());
    assert_eq!(13, MessagePartKey::FunctionName.code());
    assert_eq!(20, MessagePartKey::ClientName.code());
    assert_eq!(25, MessagePartKey::UniqueId.code());
    assert_eq!(100, MessagePartKey::UserDefined.code());
    assert_eq!(5, MessagePartType::Image.code());
    assert_eq!(3, LogMessageType::ClientInfo.code());
    assert_eq!(5, LogMessageType::Mark.code());
    assert_eq!(1, Level::Error.code());
    assert_eq!(5, Level::Trace.code());
}

#[test]
fn sets_sequence_number_in_place() {
    let mut msg = LogMessage::log(Level::Info, THREAD.to_string()).message("hello".to_string());
    let before = msg.bytes().to_vec();
    assert_eq!(0, be32_at(&before, SEQUENCE_NB_OFFSET));
    msg.set_sequence_number(0x0102_0304);
    let after = msg.bytes().to_vec();
    assert_eq!(0x0102_0304, be32_at(&after, SEQUENCE_NB_OFFSET));
    assert_eq!(&before[..SEQUENCE_NB_OFFSET], &after[..SEQUENCE_NB_OFFSET]);
    assert_eq!(&before[SEQUENCE_NB_OFFSET + 4..], &after[SEQUENCE_NB_OFFSET + 4..]);
    assert_eq!(after, msg.to_bytes());
}

#[test]
fn size_field_is_length_minus_four() {
    let msg = LogMessage::log(Level::Warn, THREAD.to_string())
        .with_domain(Domain::Network)
        .message("héllo wörld".to_string());
    let bytes = msg.bytes();
    assert_eq!(bytes.len() - 4, be32_at(bytes, 0) as usize);
    assert_eq!(8, be16_at(bytes, 4));
    let parts = parts_of(bytes);
    assert_eq!((5, 0, b"Network".to_vec()), parts[6]);
    assert_eq!((7, 0, "héllo wörld".as_bytes().to_vec()), parts[7]);
    assert_eq!((6, 2, vec![0, 2]), parts[5]);
}

#[test]
fn header_adds_level_source_and_tag() {
    let builder = LogMessage::log(Level::Debug, THREAD.to_string()).with_header(
        Some("src/main.rs".to_string()),
        Some(42),
        Some("main".to_string()),
        Some(Domain::DB),
        Level::Error,
    );
    let parts = parts_of(builder.freeze().bytes());
    assert_eq!(11, parts.len());
    assert_eq!((6, 2, vec![0, 1]), parts[6]);
    assert_eq!((11, 0, b"src/main.rs".to_vec()), parts[7]);
    assert_eq!((12, 3, vec![0, 0, 0, 42]), parts[8]);
    assert_eq!((13, 0, b"main".to_vec()), parts[9]);
    assert_eq!((5, 0, b"DB".to_vec()), parts[10]);
}

#[test]
fn line_number_needs_a_file_name() {
    let builder = LogMessage::log(Level::Info, THREAD.to_string()).with_source_descriptor(
        None,
        Some(7),
        Some("f".to_string()),
    );
    let parts = parts_of(builder.freeze().bytes());
    assert_eq!(7, parts.len());
    assert_eq!((13, 0, b"f".to_vec()), parts[6]);
}

#[test]
fn timestamp_splits_seconds_and_milliseconds() {
    let builder = LogMessageBuilder::new(LogMessageType::Log, THREAD.to_string())
        .with_timestamp(Some(1_700_000_123_456));
    let parts = builder.parts();
    match (&parts[5].1, &parts[6].1) {
        (MessageData::Int64(s), MessageData::Int16(ms)) => {
            assert_eq!(1_700_000_123, *s);
            assert_eq!(456, *ms);
        },
        _ => panic!("timestamp parts"),
    }
}

#[test]
fn logs_mark() {
    let mark = LogMessage::mark(Some("this is a mark"), THREAD.to_string());
    let parts = parts_of(mark.bytes());
    assert_eq!(7, parts.len());
    assert_eq!((0, 3, vec![0, 0, 0, 5]), parts[0]);
    assert_eq!((6, 2, vec![0, 1]), parts[5]);
    assert_eq!((7, 0, b"this is a mark".to_vec()), parts[6]);
}

#[test]
fn logs_empty_mark() {
    let mark = LogMessage::mark(None, THREAD.to_string());
    let parts = parts_of(mark.bytes());
    assert_eq!(7, parts.len());
    assert_eq!(7, parts[6].0);
    assert!(!parts[6].2.is_empty());
    let empty = LogMessage::mark(Some(""), THREAD.to_string());
    assert!(!parts_of(empty.bytes())[6].2.is_empty());
}

#[test]
fn mark_time_label_has_month_day_and_time() {
    for mark in [LogMessage::mark(None, THREAD.to_string()), LogMessage::mark(Some(""), THREAD.to_string())] {
        let label = String::from_utf8(parts_of(mark.bytes())[6].2.clone()).expect("text");
        assert!(label.contains(", "));
        assert_eq!(2, label.matches(':').count());
        assert!(label.chars().next().unwrap().is_ascii_uppercase());
    }
}

#[test]
fn labels_marks_with_chrono_time() {
    assert_eq!("Jan 1, 12:00:00", mark_time_text(0));
    assert_eq!("Nov 14, 10:15:23", mark_time_text(1_700_000_123_456));
    assert_eq!("Dec 31, 11:59:59", mark_time_text(-1_000));
    // beyond chrono's range: the epoch's label
    assert_eq!("Jan 1, 12:00:00", mark_time_text(i64::MAX));
    assert!(!mark_time_text(999_999_999_999_999).is_empty());
}

#[test]
fn frozen_header_holds_type_and_null_sequence_number() {
    let message = LogMessageBuilder::new(LogMessageType::Mark, THREAD.to_string())
        .with_int16(MessagePartKey::Level, 3)
        .with_string(MessagePartKey::Message, "text".to_string())
        .with_timestamp(Some(5))
        .with_binary_data(MessagePartKey::Message, &[1, 2, 3])
        .freeze();
    let bytes = message.bytes();
    assert_eq!(&[0, 3], &bytes[6..8]);
    assert_eq!(5, be32_at(bytes, 8));
    assert_eq!(&[10, 3], &bytes[12..14]);
    assert_eq!(0, be32_at(bytes, SEQUENCE_NB_OFFSET));
}

#[test]
fn marks_with_label() {
    let mark = LogMessage::mark_with_label("label".to_string(), THREAD.to_string());
    assert!(contains(mark.bytes(), b"label"));
}

#[test]
fn logs_binary_data() {
    let bytes: [u8; 8] = [0x6c, 0x6f, 0x67, 0x20, 0x74, 0x65, 0x73, 0x74];
    let msg = LogMessage::log(Level::Warn, THREAD.to_string()).data(&bytes);
    let parts = parts_of(msg.bytes());
    assert_eq!((7, 1, bytes.to_vec()), parts[6]);
}

#[test]
fn logs_image() {
    let image: Vec<u8> = vec![0x89, b'P', b'N', b'G', 0x0d, 0x0a, 0x1a, 0x0a];
    let msg = LogMessage::log(Level::Warn, THREAD.to_string()).image(&image);
    let parts = parts_of(msg.bytes());
    assert_eq!((7, 5, image), parts[6]);
}

#[test]
fn logs_empty_domain() {
    let msg = LogMessage::log(Level::Warn, THREAD.to_string())
        .with_domain(Domain::Custom("".to_string()))
        .message("no domain should appear".to_string());
    let parts = parts_of(msg.bytes());
    assert_eq!((5, 0, Vec::new()), parts[6]);
}

#[test]
fn creates_logger_instance() {
    let cases = [
        (Level::Warn, Domain::App, "warning msg"),
        (Level::Error, Domain::DB, "error msg"),
        (Level::Debug, Domain::DB, "debug msg"),
        (Level::Debug, Domain::Custom("MyCustomDomain".to_string()), "Tag test"),
    ];
    for (level, domain, text) in cases {
        let name = domain.name();
        let msg = LogMessage::log(level, THREAD.to_string())
            .with_domain(domain)
            .message(text.to_string());
        let parts = parts_of(msg.bytes());
        assert_eq!((6, 2, level.code().to_be_bytes().to_vec()), parts[5]);
        assert_eq!((5, 0, name.into_bytes()), parts[6]);
        assert_eq!((7, 0, text.as_bytes().to_vec()), parts[7]);
    }
    let plain = LogMessage::log(Level::Info, THREAD.to_string())
        .message("Just a simple message".to_string());
    assert_eq!(7, parts_of(plain.bytes()).len());
}

#[test]
fn builds_client_info() {
    let info = LogMessage::client_info_from(
        Some("Linux".to_string()),
        Some("6.1".to_string()),
        Some("app".to_string()),
        THREAD.to_string(),
    );
    let parts = parts_of(info.bytes());
    assert_eq!(8, parts.len());
    assert_eq!((0, 3, vec![0, 0, 0, 3]), parts[0]);
    assert_eq!((22, 0, b"Linux".to_vec()), parts[5]);
    assert_eq!((23, 0, b"6.1".to_vec()), parts[6]);
    assert_eq!((20, 0, b"app".to_vec()), parts[7]);
    let without = LogMessage::client_info_from(None, None, None, THREAD.to_string());
    assert_eq!(5, parts_of(without.bytes()).len());
    let live = LogMessage::client_info(Some("app".to_string()), THREAD.to_string());
    assert_eq!((20, 0, b"app".to_vec()), *parts_of(live.bytes()).last().unwrap());
}
