//! Log messages in the NSLogger wire format.
//!
//! A message is a 4-byte big-endian length (the total size minus 4), a 2-byte big-endian part
//! count, then the parts. Each part is a key byte, a type byte and a payload: a big-endian
//! integer of 8, 4 or 2 bytes, or a 4-byte big-endian length followed by that many bytes (UTF-8
//! text, binary data or a PNG image).

use vstd::prelude::*;
use vstd::string::*;
use vstd::utf8::encode_utf8;

use crate::level::Level;
use crate::text::str_equals;
use crate::wire::{be16, be32, be64, push_all, push_be16, push_be32, push_be64, read_be16, read_be32};

verus! {

/// Offset of the sequence number within a serialized message: the payload of the second part,
/// after the 6-byte message header and the 6-byte message type part and 2 bytes of key and type.
pub const SEQUENCE_NB_OFFSET: usize = 14;

/// Category shown by the viewer next to a message.
#[derive(Debug, Clone, PartialEq, Eq)]
pub enum Domain {
    App,
    View,
    Layout,
    Controller,
    Routing,
    Service,
    Network,
    Model,
    Cache,
    DB,
    IO,
    Custom(String),
}

/// The predefined domain named `name`, if any.
pub open spec fn builtin_domain(name: Seq<char>) -> Option<Domain> {
    if name == "App"@ {
        Some(Domain::App)
    } else if name == "View"@ {
        Some(Domain::View)
    } else if name == "Layout"@ {
        Some(Domain::Layout)
    } else if name == "Controller"@ {
        Some(Domain::Controller)
    } else if name == "Routing"@ {
        Some(Domain::Routing)
    } else if name == "Service"@ {
        Some(Domain::Service)
    } else if name == "Network"@ {
        Some(Domain::Network)
    } else if name == "Model"@ {
        Some(Domain::Model)
    } else if name == "Cache"@ {
        Some(Domain::Cache)
    } else if name == "DB"@ {
        Some(Domain::DB)
    } else if name == "IO"@ {
        Some(Domain::IO)
    } else {
        None
    }
}

impl Domain {
    /// Name of the domain as the viewer shows it: the variant's name, or the custom text.
    pub open spec fn spec_name(&self) -> Seq<char> {
        match self {
            Domain::App => "App"@,
            Domain::View => "View"@,
            Domain::Layout => "Layout"@,
            Domain::Controller => "Controller"@,
            Domain::Routing => "Routing"@,
            Domain::Service => "Service"@,
            Domain::Network => "Network"@,
            Domain::Model => "Model"@,
            Domain::Cache => "Cache"@,
            Domain::DB => "DB"@,
            Domain::IO => "IO"@,
            Domain::Custom(name) => name@,
        }
    }

    /// Name of the domain as the viewer shows it.
    pub fn name(&self) -> (r: String)
        ensures
            r@ == self.spec_name(),
    {
        match self {
            Domain::App => "App".to_owned(),
            Domain::View => "View".to_owned(),
            Domain::Layout => "Layout".to_owned(),
            Domain::Controller => "Controller".to_owned(),
            Domain::Routing => "Routing".to_owned(),
            Domain::Service => "Service".to_owned(),
            Domain::Network => "Network".to_owned(),
            Domain::Model => "Model".to_owned(),
            Domain::Cache => "Cache".to_owned(),
            Domain::DB => "DB".to_owned(),
            Domain::IO => "IO".to_owned(),
            Domain::Custom(name) => name.clone(),
        }
    }

    /// Parses a domain name: a predefined domain's name gives that domain, any other text a
    /// custom domain. Parsing never fails.
    pub fn from_str(s: &str) -> (r: Result<Domain, ()>)
        ensures
            match builtin_domain(s@) {
                Some(d) => r == Ok::<Domain, ()>(d),
                None => r matches Ok(Domain::Custom(name)) && name@ == s@,
            },
    {
        let domain = if str_equals(s, "App") {
            Domain::App
        } else if str_equals(s, "View") {
            Domain::View
        } else if str_equals(s, "Layout") {
            Domain::Layout
        } else if str_equals(s, "Controller") {
            Domain::Controller
        } else if str_equals(s, "Routing") {
            Domain::Routing
        } else if str_equals(s, "Service") {
            Domain::Service
        } else if str_equals(s, "Network") {
            Domain::Network
        } else if str_equals(s, "Model") {
            Domain::Model
        } else if str_equals(s, "Cache") {
            Domain::Cache
        } else if str_equals(s, "DB") {
            Domain::DB
        } else if str_equals(s, "IO") {
            Domain::IO
        } else {
            Domain::Custom(s.to_owned())
        };
        Ok(domain)
    }
}

/// The name of a predefined domain parses back to that domain: names and domains correspond
/// one to one.
pub proof fn lemma_domain_name_round_trip(d: Domain)
    requires
        !(d is Custom),
    ensures
        builtin_domain(d.spec_name()) == Some(d),
{
    reveal_strlit("App");
    reveal_strlit("View");
    reveal_strlit("Layout");
    reveal_strlit("Controller");
    reveal_strlit("Routing");
    reveal_strlit("Service");
    reveal_strlit("Network");
    reveal_strlit("Model");
    reveal_strlit("Cache");
    reveal_strlit("DB");
    reveal_strlit("IO");
    match d {
        Domain::App => {
        },
        Domain::View => {
            assert("View"@.len() != "App"@.len());
        },
        Domain::Layout => {
            assert("Layout"@.len() != "App"@.len());
            assert("Layout"@.len() != "View"@.len());
        },
        Domain::Controller => {
            assert("Controller"@.len() != "App"@.len());
            assert("Controller"@.len() != "View"@.len());
            assert("Controller"@.len() != "Layout"@.len());
        },
        Domain::Routing => {
            assert("Routing"@.len() != "App"@.len());
            assert("Routing"@.len() != "View"@.len());
            assert("Routing"@.len() != "Layout"@.len());
            assert("Routing"@.len() != "Controller"@.len());
        },
        Domain::Service => {
            assert("Service"@.len() != "App"@.len());
            assert("Service"@.len() != "View"@.len());
            assert("Service"@.len() != "Layout"@.len());
            assert("Service"@.len() != "Controller"@.len());
            assert("Service"@[0] != "Routing"@[0]);
        },
        Domain::Network => {
            assert("Network"@.len() != "App"@.len());
            assert("Network"@.len() != "View"@.len());
            assert("Network"@.len() != "Layout"@.len());
            assert("Network"@.len() != "Controller"@.len());
            assert("Network"@[0] != "Routing"@[0]);
            assert("Network"@[0] != "Service"@[0]);
        },
        Domain::Model => {
            assert("Model"@.len() != "App"@.len());
            assert("Model"@.len() != "View"@.len());
            assert("Model"@.len() != "Layout"@.len());
            assert("Model"@.len() != "Controller"@.len());
            assert("Model"@.len() != "Routing"@.len());
            assert("Model"@.len() != "Service"@.len());
            assert("Model"@.len() != "Network"@.len());
        },
        Domain::Cache => {
            assert("Cache"@.len() != "App"@.len());
            assert("Cache"@.len() != "View"@.len());
            assert("Cache"@.len() != "Layout"@.len());
            assert("Cache"@.len() != "Controller"@.len());
            assert("Cache"@.len() != "Routing"@.len());
            assert("Cache"@.len() != "Service"@.len());
            assert("Cache"@.len() != "Network"@.len());
            assert("Cache"@[0] != "Model"@[0]);
        },
        Domain::DB => {
            assert("DB"@.len() != "App"@.len());
            assert("DB"@.len() != "View"@.len());
            assert("DB"@.len() != "Layout"@.len());
            assert("DB"@.len() != "Controller"@.len());
            assert("DB"@.len() != "Routing"@.len());
            assert("DB"@.len() != "Service"@.len());
            assert("DB"@.len() != "Network"@.len());
            assert("DB"@.len() != "Model"@.len());
            assert("DB"@.len() != "Cache"@.len());
        },
        Domain::IO => {
            assert("IO"@.len() != "App"@.len());
            assert("IO"@.len() != "View"@.len());
            assert("IO"@.len() != "Layout"@.len());
            assert("IO"@.len() != "Controller"@.len());
            assert("IO"@.len() != "Routing"@.len());
            assert("IO"@.len() != "Service"@.len());
            assert("IO"@.len() != "Network"@.len());
            assert("IO"@.len() != "Model"@.len());
            assert("IO"@.len() != "Cache"@.len());
            assert("IO"@[0] != "DB"@[0]);
        },
        Domain::Custom(_) => {},
    }
}

/// Key of a message part: what the part's payload means.
#[derive(Debug, Clone, Copy, PartialEq, Eq, Structural)]
pub enum MessagePartKey {
    MessageType,
    /// "seconds" component of timestamp
    TimestampS,
    /// Milliseconds component of timestamp (optional, mutually exclusive with TimestampUs)
    TimestampMs,
    /// Microseconds component of timestamp (optional, mutually exclusive with TimestampMs)
    TimestampUs,
    ThreadId,
    Tag,
    Level,
    Message,
    /// Messages containing an image should also provide the image size
    ImageWidth,
    ImageHeight,
    /// Message sequence number.
    MessageSeq,
    FileName,
    LineNumber,
    FunctionName,
    ClientName,
    ClientVersion,
    OsName,
    OsVersion,
    ClientModel,
    UniqueId,
    UserDefined,
}

impl MessagePartKey {
    /// The key's byte on the wire.
    pub open spec fn spec_code(self) -> u8 {
        match self {
            MessagePartKey::MessageType => 0,
            MessagePartKey::TimestampS => 1,
            MessagePartKey::TimestampMs => 2,
            MessagePartKey::TimestampUs => 3,
            MessagePartKey::ThreadId => 4,
            MessagePartKey::Tag => 5,
            MessagePartKey::Level => 6,
            MessagePartKey::Message => 7,
            MessagePartKey::ImageWidth => 8,
            MessagePartKey::ImageHeight => 9,
            MessagePartKey::MessageSeq => 10,
            MessagePartKey::FileName => 11,
            MessagePartKey::LineNumber => 12,
            MessagePartKey::FunctionName => 13,
            MessagePartKey::ClientName => 20,
            MessagePartKey::ClientVersion => 21,
            MessagePartKey::OsName => 22,
            MessagePartKey::OsVersion => 23,
            MessagePartKey::ClientModel => 24,
            MessagePartKey::UniqueId => 25,
            MessagePartKey::UserDefined => 100,
        }
    }

    /// The key's byte on the wire.
    pub fn code(&self) -> (r: u8)
        ensures
            r == self.spec_code(),
    {
        match self {
            MessagePartKey::MessageType => 0,
            MessagePartKey::TimestampS => 1,
            MessagePartKey::TimestampMs => 2,
            MessagePartKey::TimestampUs => 3,
            MessagePartKey::ThreadId => 4,
            MessagePartKey::Tag => 5,
            MessagePartKey::Level => 6,
            MessagePartKey::Message => 7,
            MessagePartKey::ImageWidth => 8,
            MessagePartKey::ImageHeight => 9,
            MessagePartKey::MessageSeq => 10,
            MessagePartKey::FileName => 11,
            MessagePartKey::LineNumber => 12,
            MessagePartKey::FunctionName => 13,
            MessagePartKey::ClientName => 20,
            MessagePartKey::ClientVersion => 21,
            MessagePartKey::OsName => 22,
            MessagePartKey::OsVersion => 23,
            MessagePartKey::ClientModel => 24,
            MessagePartKey::UniqueId => 25,
            MessagePartKey::UserDefined => 100,
        }
    }
}

/// Type of a message part's payload.
#[derive(Debug, Clone, Copy, PartialEq, Eq, Structural)]
pub enum MessagePartType {
    /// UTF-8 string
    String,
    Binary,
    Int16,
    Int32,
    Int64,
    /// PNG image
    Image,
}

impl MessagePartType {
    /// The type's byte on the wire.
    pub open spec fn spec_code(self) -> u8 {
        match self {
            MessagePartType::String => 0,
            MessagePartType::Binary => 1,
            MessagePartType::Int16 => 2,
            MessagePartType::Int32 => 3,
            MessagePartType::Int64 => 4,
            MessagePartType::Image => 5,
        }
    }

    /// The type's byte on the wire.
    pub fn code(&self) -> (r: u8)
        ensures
            r == self.spec_code(),
    {
        match self {
            MessagePartType::String => 0,
            MessagePartType::Binary => 1,
            MessagePartType::Int16 => 2,
            MessagePartType::Int32 => 3,
            MessagePartType::Int64 => 4,
            MessagePartType::Image => 5,
        }
    }
}

/// Kind of a log message.
#[derive(Debug, Clone, Copy, PartialEq, Eq, Structural)]
pub enum LogMessageType {
    /// Standard log message
    Log,
    /// Start of a block (i.e., a group) of log entries
    BlockStart,
    /// End of the block of entries
    BlockEnd,
    /// Client app info
    ClientInfo,
    /// Identifies a client disconnect
    Disconnect,
    /// Mark (i.e., a section marker) in the log sequence
    Mark,
}

impl LogMessageType {
    /// The message type's number on the wire.
    pub open spec fn spec_code(self) -> u32 {
        match self {
            LogMessageType::Log => 0,
            LogMessageType::BlockStart => 1,
            LogMessageType::BlockEnd => 2,
            LogMessageType::ClientInfo => 3,
            LogMessageType::Disconnect => 4,
            LogMessageType::Mark => 5,
        }
    }

    /// The message type's number on the wire.
    pub fn code(&self) -> (r: u32)
        ensures
            r == self.spec_code(),
    {
        match self {
            LogMessageType::Log => 0,
            LogMessageType::BlockStart => 1,
            LogMessageType::BlockEnd => 2,
            LogMessageType::ClientInfo => 3,
            LogMessageType::Disconnect => 4,
            LogMessageType::Mark => 5,
        }
    }
}

/// Payload of a message part.
#[derive(Debug, Clone)]
pub enum MessageData {
    Int64(u64),
    Int32(u32),
    Int16(u16),
    Bytes(MessagePartType, Vec<u8>),
    String(String),
}

/// The low 32 bits of `n`, as the wire's length fields keep them.
pub open spec fn trunc32(n: int) -> u32 {
    (n % 0x1_0000_0000) as u32
}

/// The low 16 bits of `n`, as the wire's part count keeps them.
pub open spec fn trunc16(n: int) -> u16 {
    (n % 0x1_0000) as u16
}

/// Low 32 bits of a length.
fn low32(n: usize) -> (r: u32)
    ensures
        r == trunc32(n as int),
{
    ((n as u64) % 0x1_0000_0000u64) as u32
}

impl MessageData {
    /// The payload's type on the wire.
    pub open spec fn spec_part_type(self) -> MessagePartType {
        match self {
            MessageData::Int64(_) => MessagePartType::Int64,
            MessageData::Int32(_) => MessagePartType::Int32,
            MessageData::Int16(_) => MessagePartType::Int16,
            MessageData::String(_) => MessagePartType::String,
            MessageData::Bytes(part_type, _) => part_type,
        }
    }

    /// The payload's type on the wire.
    pub fn part_type(&self) -> (r: MessagePartType)
        ensures
            r == self.spec_part_type(),
    {
        match self {
            MessageData::Int64(_) => MessagePartType::Int64,
            MessageData::Int32(_) => MessagePartType::Int32,
            MessageData::Int16(_) => MessagePartType::Int16,
            MessageData::String(_) => MessagePartType::String,
            MessageData::Bytes(part_type, _) => *part_type,
        }
    }

    /// The payload's bytes on the wire.
    pub open spec fn spec_bytes(self) -> Seq<u8> {
        match self {
            MessageData::Int64(v) => be64(v),
            MessageData::Int32(v) => be32(v),
            MessageData::Int16(v) => be16(v),
            MessageData::String(s) => be32(trunc32(encode_utf8(s@).len() as int)) + encode_utf8(
                s@,
            ),
            MessageData::Bytes(_, bytes) => be32(trunc32(bytes@.len() as int)) + bytes@,
        }
    }
}

/// A message part: its key and its payload.
#[derive(Debug, Clone)]
pub struct MessagePart(pub MessagePartKey, pub MessageData);

impl MessagePart {
    /// The part's bytes on the wire: key, type, then payload.
    pub open spec fn spec_bytes(self) -> Seq<u8> {
        seq![self.0.spec_code(), self.1.spec_part_type().spec_code()] + self.1.spec_bytes()
    }

    /// Appends the part's bytes to `buf`.
    pub fn write(&self, buf: &mut Vec<u8>)
        ensures
            final(buf)@ == old(buf)@ + self.spec_bytes(),
    {
        let ghost start = buf@;
        buf.push(self.0.code());
        buf.push(self.1.part_type().code());
        assert(buf@ =~= start + seq![self.0.spec_code(), self.1.spec_part_type().spec_code()]);
        match &self.1 {
            MessageData::Int64(v) => push_be64(buf, *v),
            MessageData::Int32(v) => push_be32(buf, *v),
            MessageData::Int16(v) => push_be16(buf, *v),
            MessageData::String(string) => {
                let bytes = string.as_str().as_bytes();
                push_be32(buf, low32(bytes.len()));
                push_all(buf, bytes);
            },
            MessageData::Bytes(_, bytes) => {
                push_be32(buf, low32(bytes.len()));
                push_all(buf, bytes.as_slice());
            },
        }
        assert(buf@ =~= start + self.spec_bytes());
    }
}

/// The concatenated bytes of `parts`.
pub open spec fn parts_bytes(parts: Seq<MessagePart>) -> Seq<u8>
    decreases parts.len(),
{
    if parts.len() == 0 {
        Seq::empty()
    } else {
        parts_bytes(parts.drop_last()) + parts.last().spec_bytes()
    }
}

/// Size in bytes of the serialized message made of `parts`.
pub open spec fn message_size(parts: Seq<MessagePart>) -> int {
    6 + parts_bytes(parts).len() as int
}

/// The serialized message made of `parts`: the size minus 4 and the part count, both truncated
/// to their field's width, then the parts.
pub open spec fn serialize(parts: Seq<MessagePart>) -> Seq<u8> {
    be32(trunc32(message_size(parts) - 4)) + be16(trunc16(parts.len() as int)) + parts_bytes(parts)
}

/// The bytes of a prefix of the parts are a prefix of the bytes of all parts.
pub proof fn lemma_parts_bytes_prefix(parts: Seq<MessagePart>, k: int)
    requires
        0 <= k <= parts.len(),
    ensures
        parts_bytes(parts.take(k)).len() <= parts_bytes(parts).len(),
        parts_bytes(parts).take(parts_bytes(parts.take(k)).len() as int) == parts_bytes(
            parts.take(k),
        ),
    decreases parts.len(),
{
    if k == parts.len() {
        assert(parts.take(k) =~= parts);
        assert(parts_bytes(parts).take(parts_bytes(parts).len() as int) =~= parts_bytes(parts));
    } else {
        lemma_parts_bytes_prefix(parts.drop_last(), k);
        assert(parts.drop_last().take(k) =~= parts.take(k));
        let a = parts_bytes(parts.drop_last());
        let b = parts.last().spec_bytes();
        let n = parts_bytes(parts.take(k)).len() as int;
        assert((a + b).take(n) =~= a.take(n));
    }
}

/// Whether `parts` start with the message type and sequence number parts, both 32-bit.
pub open spec fn has_message_header(parts: Seq<MessagePart>) -> bool {
    &&& parts.len() >= 2
    &&& parts[0].0 == MessagePartKey::MessageType
    &&& parts[0].1 is Int32
    &&& parts[1].0 == MessagePartKey::MessageSeq
    &&& parts[1].1 is Int32
}

/// Whether `bytes` is a message frame whose sequence number can be read and replaced: its size
/// field matches its length, and its second part is a 32-bit sequence number.
pub open spec fn is_message_frame(bytes: Seq<u8>) -> bool {
    &&& bytes.len() >= 18
    &&& read_be32(bytes, 0) == trunc32(bytes.len() - 4)
    &&& bytes[12] == MessagePartKey::MessageSeq.spec_code()
    &&& bytes[13] == MessagePartType::Int32.spec_code()
}

/// The sequence number stored in a message frame.
pub open spec fn sequence_number(bytes: Seq<u8>) -> u32 {
    read_be32(bytes, SEQUENCE_NB_OFFSET as int)
}

/// The 32-bit value read at `at` in `a + b + c`, when its bytes lie in `b`, is read in `b`.
proof fn lemma_read_be32_inside(s: Seq<u8>, at: int, v: u32)
    requires
        0 <= at,
        at + 4 <= s.len(),
        s.subrange(at, at + 4) == be32(v),
    ensures
        read_be32(s, at) == v,
{
    crate::wire::lemma_be32_round_trip(v);
    assert(s[at] == be32(v)[0]);
    assert(s[at + 1] == be32(v)[1]);
    assert(s[at + 2] == be32(v)[2]);
    assert(s[at + 3] == be32(v)[3]);
}

/// Whether `bytes` open with the header of every message: after the size and the part count, a
/// 32-bit message type part holding `message_type`, then a 32-bit sequence number part.
pub open spec fn is_frame_header(bytes: Seq<u8>, message_type: u32) -> bool {
    &&& bytes.len() >= 18
    &&& bytes[6] == MessagePartKey::MessageType.spec_code()
    &&& bytes[7] == MessagePartType::Int32.spec_code()
    &&& read_be32(bytes, 8) == message_type
    &&& bytes[12] == MessagePartKey::MessageSeq.spec_code()
    &&& bytes[13] == MessagePartType::Int32.spec_code()
}

/// Whatever parts follow the standard header, the serialized message holds its message type
/// at bytes 8 to 12, and its sequence number, still null, at `SEQUENCE_NB_OFFSET`.
pub proof fn lemma_frozen_header(
    parts: Seq<MessagePart>,
    message_type: LogMessageType,
    thread_name: Seq<char>,
)
    requires
        parts.len() >= 5,
        is_standard_header(parts.take(5), message_type, thread_name),
    ensures
        is_frame_header(serialize(parts), message_type.spec_code()),
        is_message_frame(serialize(parts)),
        sequence_number(serialize(parts)) == 0,
{
    assert(parts[0] == parts.take(5)[0]);
    assert(parts[1] == parts.take(5)[1]);
    lemma_serialize_frame(parts);
}

/// A serialized message whose parts start with the message header is a message frame, and its
/// sequence number is the second part's value.
pub proof fn lemma_serialize_frame(parts: Seq<MessagePart>)
    requires
        has_message_header(parts),
    ensures
        is_message_frame(serialize(parts)),
        sequence_number(serialize(parts)) == parts[1].1->Int32_0,
        serialize(parts).len() == message_size(parts),
        is_frame_header(serialize(parts), parts[0].1->Int32_0),
{
    let bytes = serialize(parts);
    lemma_parts_bytes_prefix(parts, 2);
    let p2 = parts.take(2);
    assert(p2.drop_last().drop_last() =~= Seq::<MessagePart>::empty());
    assert(p2.drop_last() =~= seq![parts[0]]);
    let pb = parts_bytes(parts);
    assert(parts_bytes(p2.drop_last()) =~= parts[0].spec_bytes()) by {
        assert(parts_bytes(p2.drop_last().drop_last()) =~= Seq::<u8>::empty());
    }
    assert(parts_bytes(p2) =~= parts[0].spec_bytes() + parts[1].spec_bytes());
    assert(parts_bytes(p2).len() == 12);
    assert(pb.take(12) == parts_bytes(p2));
    assert(bytes.len() >= 18);
    assert(bytes[12] == pb[6]);
    assert(pb[6] == parts_bytes(p2)[6]);
    assert(bytes[13] == pb[7]);
    assert(pb[7] == parts_bytes(p2)[7]);
    let seq_value = parts[1].1->Int32_0;
    assert(bytes.subrange(14, 18) =~= be32(seq_value)) by {
        assert forall|j: int| 0 <= j < 4 implies bytes[14 + j] == be32(seq_value)[j] by {
            assert(bytes[14 + j] == pb[8 + j]);
            assert(pb[8 + j] == parts_bytes(p2)[8 + j]);
        }
    }
    lemma_read_be32_inside(bytes, 14, seq_value);
    let type_value = parts[0].1->Int32_0;
    assert(bytes.subrange(8, 12) =~= be32(type_value)) by {
        assert forall|j: int| 0 <= j < 4 implies bytes[8 + j] == be32(type_value)[j] by {
            assert(bytes[8 + j] == pb[2 + j]);
            assert(pb[2 + j] == parts_bytes(p2)[2 + j]);
        }
    }
    lemma_read_be32_inside(bytes, 8, type_value);
    assert(bytes[6] == pb[0] && pb[0] == parts_bytes(p2)[0]);
    assert(bytes[7] == pb[1] && pb[1] == parts_bytes(p2)[1]);
    assert(bytes.subrange(0, 4) =~= be32(trunc32(message_size(parts) - 4)));
    lemma_read_be32_inside(bytes, 0, trunc32(message_size(parts) - 4));
}

/// The first twelve bytes of parts that start with the message header are the bytes of the two
/// header parts.
proof fn lemma_first_two_parts(parts: Seq<MessagePart>)
    requires
        has_message_header(parts),
    ensures
        parts_bytes(parts).len() >= 12,
        parts_bytes(parts).take(12) == parts[0].spec_bytes() + parts[1].spec_bytes(),
{
    lemma_parts_bytes_prefix(parts, 2);
    let p2 = parts.take(2);
    assert(p2.drop_last().drop_last() =~= Seq::<MessagePart>::empty());
    assert(parts_bytes(p2.drop_last().drop_last()) =~= Seq::<u8>::empty());
    assert(parts_bytes(p2.drop_last()) =~= parts[0].spec_bytes());
    assert(parts_bytes(p2) =~= parts[0].spec_bytes() + parts[1].spec_bytes());
}

/// Replacing the sequence number of a message frame keeps it a frame of the same length, and
/// the new sequence number reads back.
pub proof fn lemma_set_sequence_number(bytes: Seq<u8>, n: u32)
    requires
        is_message_frame(bytes),
    ensures
        ({
            let after = bytes.take(SEQUENCE_NB_OFFSET as int) + be32(n) + bytes.skip(
                SEQUENCE_NB_OFFSET + 4,
            );
            &&& after.len() == bytes.len()
            &&& is_message_frame(after)
            &&& sequence_number(after) == n
        }),
{
    let after = bytes.take(14) + be32(n) + bytes.skip(18);
    assert(after.len() == bytes.len());
    assert(after.subrange(14, 18) =~= be32(n));
    lemma_read_be32_inside(after, 14, n);
    assert(after[0] == bytes[0] && after[1] == bytes[1] && after[2] == bytes[2] && after[3]
        == bytes[3]);
    assert(after[12] == bytes[12] && after[13] == bytes[13]);
}

/// The bytes of parts whose second part is replaced by one of the same size are the old bytes
/// with that part's bytes replaced.
proof fn lemma_parts_bytes_update_second(parts: Seq<MessagePart>, x: MessagePart)
    requires
        parts.len() >= 2,
        parts[0].spec_bytes().len() == 6,
        parts[1].spec_bytes().len() == 6,
        x.spec_bytes().len() == 6,
    ensures
        parts_bytes(parts).len() >= 12,
        parts_bytes(parts.update(1, x)) == parts_bytes(parts).take(6) + x.spec_bytes()
            + parts_bytes(parts).skip(12),
    decreases parts.len(),
{
    let u = parts.update(1, x);
    if parts.len() == 2 {
        assert(parts.drop_last().drop_last() =~= Seq::<MessagePart>::empty());
        assert(u.drop_last().drop_last() =~= Seq::<MessagePart>::empty());
        assert(parts_bytes(parts.drop_last().drop_last()) =~= Seq::<u8>::empty());
        assert(parts_bytes(u.drop_last().drop_last()) =~= Seq::<u8>::empty());
        assert(parts_bytes(parts.drop_last()) =~= parts[0].spec_bytes());
        assert(parts_bytes(u.drop_last()) =~= parts[0].spec_bytes());
        assert(parts_bytes(parts) =~= parts[0].spec_bytes() + parts[1].spec_bytes());
        assert(parts_bytes(u) =~= parts[0].spec_bytes() + x.spec_bytes());
        assert(parts_bytes(u) =~= parts_bytes(parts).take(6) + x.spec_bytes() + parts_bytes(
            parts,
        ).skip(12));
    } else {
        lemma_parts_bytes_update_second(parts.drop_last(), x);
        assert(u.drop_last() =~= parts.drop_last().update(1, x));
        assert(u.last() == parts.last());
        let a = parts_bytes(parts.drop_last());
        let l = parts.last().spec_bytes();
        assert((a + l).take(6) =~= a.take(6));
        assert((a + l).skip(12) =~= a.skip(12) + l);
        assert(parts_bytes(u) =~= a.take(6) + x.spec_bytes() + a.skip(12) + l);
    }
}

/// Setting the sequence number of a serialized message gives the message that would have been
/// built with that sequence number.
pub proof fn lemma_sequence_number_as_built(parts: Seq<MessagePart>, n: u32)
    requires
        has_message_header(parts),
    ensures
        serialize(parts).take(SEQUENCE_NB_OFFSET as int) + be32(n) + serialize(parts).skip(
            SEQUENCE_NB_OFFSET + 4,
        ) == serialize(
            parts.update(1, MessagePart(MessagePartKey::MessageSeq, MessageData::Int32(n))),
        ),
{
    let x = MessagePart(MessagePartKey::MessageSeq, MessageData::Int32(n));
    let u = parts.update(1, x);
    lemma_parts_bytes_update_second(parts, x);
    let pb = parts_bytes(parts);
    assert(parts_bytes(u).len() == pb.len());
    assert(message_size(u) == message_size(parts));
    let hdr = be32(trunc32(message_size(parts) - 4)) + be16(trunc16(parts.len() as int));
    assert(serialize(parts) =~= hdr + pb);
    assert(serialize(u) =~= hdr + parts_bytes(u));
    lemma_first_two_parts(parts);
    assert(pb.take(12) =~= pb.take(6) + parts[1].spec_bytes());
    assert(hdr.len() == 6);
    let key_type = seq![x.0.spec_code(), x.1.spec_part_type().spec_code()];
    assert(parts[1].spec_bytes() =~= key_type + be32(parts[1].1->Int32_0));
    assert(x.spec_bytes() =~= key_type + be32(n));
    assert(pb.take(8) =~= pb.take(6) + key_type) by {
        assert forall|j: int| 0 <= j < 8 implies pb.take(8)[j] == (pb.take(6) + key_type)[j] by {
            assert(pb.take(8)[j] == pb.take(12)[j]);
        }
    }
    assert(serialize(parts).take(14) =~= hdr + pb.take(8));
    assert(serialize(parts).skip(18) =~= pb.skip(12));
    assert(serialize(parts).take(14) + be32(n) + serialize(parts).skip(18) =~= serialize(u));
}

/// A part as the viewer reads it back: key byte, type byte and payload bytes (an integer's
/// big-endian bytes, or the text's or the data's bytes without their length).
pub struct PartView {
    pub key: u8,
    pub part_type: u8,
    pub payload: Seq<u8>,
}

impl MessagePart {
    /// The part as the viewer reads it back.
    pub open spec fn part_view(self) -> PartView {
        PartView {
            key: self.0.spec_code(),
            part_type: self.1.spec_part_type().spec_code(),
            payload: match self.1 {
                MessageData::Int64(v) => be64(v),
                MessageData::Int32(v) => be32(v),
                MessageData::Int16(v) => be16(v),
                MessageData::String(s) => encode_utf8(s@),
                MessageData::Bytes(_, b) => b@,
            },
        }
    }

    /// Whether the part can be read back: data parts are binary data or images, and no payload
    /// has 4 GiB or more (its length would not fit its field).
    pub open spec fn is_readable(self) -> bool {
        match self.1 {
            MessageData::Bytes(t, b) => (t == MessagePartType::Binary || t == MessagePartType::Image)
                && b@.len() < 0x1_0000_0000,
            MessageData::String(s) => encode_utf8(s@).len() < 0x1_0000_0000,
            _ => true,
        }
    }
}

/// Size of the payload of an integer part of this type, or -1 for a length-prefixed payload.
pub open spec fn fixed_payload_len(part_type: u8) -> int {
    if part_type == MessagePartType::Int64.spec_code() {
        8
    } else if part_type == MessagePartType::Int32.spec_code() {
        4
    } else if part_type == MessagePartType::Int16.spec_code() {
        2
    } else {
        -1
    }
}

/// Reads the part at the start of `bytes`: the part and the number of bytes it takes.
pub open spec fn decode_part(bytes: Seq<u8>) -> Option<(PartView, int)> {
    if bytes.len() < 2 {
        None
    } else {
        let n = fixed_payload_len(bytes[1]);
        if n >= 0 {
            if bytes.len() >= 2 + n {
                Some(
                    (
                        PartView { key: bytes[0], part_type: bytes[1], payload: bytes.subrange(2, 2 + n) },
                        2 + n,
                    ),
                )
            } else {
                None
            }
        } else if bytes.len() >= 6 {
            let l = read_be32(bytes, 2) as int;
            if bytes.len() >= 6 + l {
                Some(
                    (
                        PartView { key: bytes[0], part_type: bytes[1], payload: bytes.subrange(6, 6 + l) },
                        6 + l,
                    ),
                )
            } else {
                None
            }
        } else {
            None
        }
    }
}

/// Reads `count` parts that take up exactly `bytes`.
pub open spec fn decode_parts(bytes: Seq<u8>, count: nat) -> Option<Seq<PartView>>
    decreases count,
{
    if count == 0 {
        if bytes.len() == 0 {
            Some(Seq::empty())
        } else {
            None
        }
    } else {
        match decode_part(bytes) {
            Some((p, n)) => match decode_parts(bytes.skip(n), (count - 1) as nat) {
                Some(rest) => Some(seq![p] + rest),
                None => None,
            },
            None => None,
        }
    }
}

/// Reads a whole message: its size field must match its length, then its parts, as many as its
/// part count says, must take up the rest.
pub open spec fn decode_message(bytes: Seq<u8>) -> Option<Seq<PartView>> {
    if bytes.len() >= 6 && read_be32(bytes, 0) == trunc32(bytes.len() - 4) {
        decode_parts(bytes.skip(6), read_be16(bytes, 4) as nat)
    } else {
        None
    }
}

/// The bytes of parts are the first part's bytes followed by the bytes of the others.
proof fn lemma_parts_bytes_front(parts: Seq<MessagePart>)
    requires
        parts.len() > 0,
    ensures
        parts_bytes(parts) == parts[0].spec_bytes() + parts_bytes(parts.drop_first()),
    decreases parts.len(),
{
    if parts.len() == 1 {
        assert(parts.drop_last() =~= Seq::<MessagePart>::empty());
        assert(parts.drop_first() =~= Seq::<MessagePart>::empty());
        assert(parts_bytes(parts.drop_last()) =~= Seq::<u8>::empty());
        assert(parts_bytes(parts.drop_first()) =~= Seq::<u8>::empty());
        assert(parts_bytes(parts) =~= parts[0].spec_bytes());
    } else {
        lemma_parts_bytes_front(parts.drop_last());
        assert(parts.drop_last().drop_first() =~= parts.drop_first().drop_last());
        assert(parts.drop_first().last() == parts.last());
        assert(parts.drop_last()[0] == parts[0]);
        assert(parts_bytes(parts) =~= parts[0].spec_bytes() + parts_bytes(parts.drop_first()));
    }
}

/// The 16-bit value read at `at`, when its bytes are an encoding, is the encoded value.
proof fn lemma_read_be16_inside(s: Seq<u8>, at: int, v: u16)
    requires
        0 <= at,
        at + 2 <= s.len(),
        s.subrange(at, at + 2) == be16(v),
    ensures
        read_be16(s, at) == v,
{
    crate::wire::lemma_be16_round_trip(v);
    assert(s[at] == be16(v)[0]);
    assert(s[at + 1] == be16(v)[1]);
}

/// A readable part followed by anything reads back as itself.
proof fn lemma_decode_part(part: MessagePart, rest: Seq<u8>)
    requires
        part.is_readable(),
    ensures
        decode_part(part.spec_bytes() + rest) == Some((part.part_view(), part.spec_bytes().len() as int)),
{
    let bytes = part.spec_bytes() + rest;
    let view = part.part_view();
    assert(bytes[0] == view.key);
    assert(bytes[1] == view.part_type);
    match part.1 {
        MessageData::Int64(v) => {
            assert(bytes.subrange(2, 10) =~= be64(v));
        },
        MessageData::Int32(v) => {
            assert(bytes.subrange(2, 6) =~= be32(v));
        },
        MessageData::Int16(v) => {
            assert(bytes.subrange(2, 4) =~= be16(v));
        },
        MessageData::String(s) => {
            let payload = encode_utf8(s@);
            let l = payload.len() as int;
            assert(trunc32(l) == l);
            assert(bytes.subrange(2, 6) =~= be32(trunc32(l)));
            lemma_read_be32_inside(bytes, 2, trunc32(l));
            assert(bytes.subrange(6, 6 + l) =~= payload);
        },
        MessageData::Bytes(t, b) => {
            let l = b@.len() as int;
            assert(trunc32(l) == l);
            assert(bytes.subrange(2, 6) =~= be32(trunc32(l)));
            lemma_read_be32_inside(bytes, 2, trunc32(l));
            assert(bytes.subrange(6, 6 + l) =~= b@);
        },
    }
}

/// Readable parts read back as themselves from their bytes.
proof fn lemma_decode_parts(parts: Seq<MessagePart>)
    requires
        forall|i: int| 0 <= i < parts.len() ==> #[trigger] parts[i].is_readable(),
    ensures
        decode_parts(parts_bytes(parts), parts.len()) == Some(
            parts.map_values(|p: MessagePart| p.part_view()),
        ),
    decreases parts.len(),
{
    if parts.len() == 0 {
        assert(parts_bytes(parts) =~= Seq::<u8>::empty());
        assert(parts.map_values(|p: MessagePart| p.part_view()) =~= Seq::<PartView>::empty());
    } else {
        lemma_parts_bytes_front(parts);
        let rest = parts_bytes(parts.drop_first());
        assert(parts[0].is_readable());
        lemma_decode_part(parts[0], rest);
        let n = parts[0].spec_bytes().len() as int;
        assert((parts[0].spec_bytes() + rest).skip(n) =~= rest);
        assert forall|i: int| 0 <= i < parts.drop_first().len() implies #[trigger] parts.drop_first()[i].is_readable() by {
            assert(parts.drop_first()[i] == parts[i + 1]);
        }
        lemma_decode_parts(parts.drop_first());
        assert(seq![parts[0].part_view()] + parts.drop_first().map_values(|p: MessagePart| p.part_view())
            =~= parts.map_values(|p: MessagePart| p.part_view()));
    }
}

/// A serialized message reads back as the parts it was built from, when it has fewer than
/// 65536 parts and every part is readable.
pub proof fn lemma_serialize_round_trip(parts: Seq<MessagePart>)
    requires
        parts.len() < 0x1_0000,
        forall|i: int| 0 <= i < parts.len() ==> #[trigger] parts[i].is_readable(),
    ensures
        decode_message(serialize(parts)) == Some(parts.map_values(|p: MessagePart| p.part_view())),
{
    let bytes = serialize(parts);
    let size_field = trunc32(message_size(parts) - 4);
    let count_field = trunc16(parts.len() as int);
    assert(count_field == parts.len());
    assert(bytes.subrange(0, 4) =~= be32(size_field));
    lemma_read_be32_inside(bytes, 0, size_field);
    assert(bytes.subrange(4, 6) =~= be16(count_field));
    lemma_read_be16_inside(bytes, 4, count_field);
    assert(bytes.skip(6) =~= parts_bytes(parts));
    lemma_decode_parts(parts);
}

/// Fully constructed log message: a serialized message frame. It is immutable but for its
/// sequence number, which is set upon dispatching the message to the log worker.
#[derive(Debug)]
pub struct LogMessage(Vec<u8>);

impl View for LogMessage {
    type V = Seq<u8>;

    closed spec fn view(&self) -> Seq<u8> {
        self.0@
    }
}

impl LogMessage {
    #[verifier::type_invariant]
    spec fn inv(self) -> bool {
        is_message_frame(self.0@)
    }

    /// Returns a client info message, built on the thread named `thread_name`, for the process
    /// named `process_name`, with the name and release of the operating system.
    pub fn client_info(process_name: Option<String>, thread_name: String) -> (r: LogMessage)
        ensures
            exists|os: Option<String>, release: Option<String>|
                is_client_info(r@, os, release, process_name, thread_name@),
    {
        Self::client_info_from(os_type(), os_release(), process_name, thread_name)
    }

    /// Returns a client info message with the given system and process names, built on the
    /// thread named `thread_name`.
    pub fn client_info_from(
        os: Option<String>,
        release: Option<String>,
        process_name: Option<String>,
        thread_name: String,
    ) -> (r: LogMessage)
        ensures
            is_client_info(r@, os, release, process_name, thread_name@),
    {
        let b = LogMessageBuilder::new(LogMessageType::ClientInfo, thread_name);
        let r = b.with_string_opt(MessagePartKey::OsName, os).with_string_opt(
            MessagePartKey::OsVersion,
            release,
        ).with_string_opt(MessagePartKey::ClientName, process_name);
        proof {
            assert(r@.take(5) =~= b@);
            assert(r@.skip(5) =~= optional_text_part(MessagePartKey::OsName, os)
                + optional_text_part(MessagePartKey::OsVersion, release) + optional_text_part(
                MessagePartKey::ClientName,
                process_name,
            ));
        }
        r.freeze()
    }

    /// Returns a mark with the optional `message`; without a message, or with an empty one, the
    /// mark is labelled with the current date and time: the date and time of its own timestamp.
    pub fn mark(message: Option<&str>, thread_name: String) -> (r: LogMessage)
        ensures
            exists|label: String|
                {
                    &&& is_mark(r@, label, thread_name@)
                    &&& label@.len() > 0
                    &&& if message is Some && message->0@.len() > 0 {
                        label@ == message->0@
                    } else {
                        &&& exists|reading: Option<u64>| label@ == mark_time_text_of(
                            mark_time_millis(reading),
                        )
                        &&& exists|t: u64|
                            label@ == mark_time_text_of(mark_time_millis(Some(t))) && is_mark_at(
                                r@,
                                label,
                                thread_name@,
                                t,
                            )
                    }
                },
    {
        let given = match message {
            Some(m) => m.unicode_len() > 0,
            None => false,
        };
        if given {
            let label = message.unwrap().to_owned();
            let ghost chosen = label;
            let r = Self::mark_with_label(label, thread_name);
            assert(is_mark(r@, chosen, thread_name@));
            r
        } else {
            let (label, now) = current_mark_label();
            let ghost chosen = label;
            let r = Self::mark_at(label, thread_name, now);
            proof {
                lemma_mark_at_is_mark(r@, chosen, thread_name@, now);
            }
            r
        }
    }

    /// Returns a mark labelled `label`, built on the thread named `thread_name`.
    pub fn mark_with_label(label: String, thread_name: String) -> (r: LogMessage)
        ensures
            is_mark(r@, label, thread_name@),
    {
        let ghost chosen = label;
        let now = timestamp_value(None);
        let r = Self::mark_at(label, thread_name, now);
        proof {
            lemma_mark_at_is_mark(r@, chosen, thread_name@, now);
        }
        r
    }

    /// Returns a mark labelled `label`, built on the thread named `thread_name` at the time
    /// `millis`.
    fn mark_at(label: String, thread_name: String, millis: u64) -> (r: LogMessage)
        ensures
            is_mark_at(r@, label, thread_name@, millis),
    {
        let b = LogMessageBuilder::new_at(LogMessageType::Mark, thread_name, millis);
        let r = b.with_int16(MessagePartKey::Level, Level::Error.code());
        let ghost parts = r@.push(MessagePart(MessagePartKey::Message, MessageData::String(label)));
        assert(parts.take(5) =~= b@);
        assert(parts.subrange(2, 4) =~= b@.subrange(2, 4));
        let m = r.message(label);
        assert(m@ == serialize(parts));
        m
    }

    /// Returns a log message builder for a standard message of severity `level`, built on the
    /// thread named `thread_name`.
    pub fn log(level: Level, thread_name: String) -> (r: LogMessageBuilder)
        ensures
            is_standard_header(r@.take(5), LogMessageType::Log, thread_name@),
            r@.len() == 6,
            r@[5] == MessagePart(MessagePartKey::Level, MessageData::Int16(level.spec_code())),
    {
        let b = LogMessageBuilder::new(LogMessageType::Log, thread_name);
        let r = b.with_int16(MessagePartKey::Level, level.code());
        assert(r@.take(5) =~= b@);
        r
    }

    /// Sets the message's unique sequence number, upon sending it to the log worker.
    pub fn set_sequence_number(&mut self, sequence_number: u32)
        ensures
            final(self)@ == old(self)@.take(SEQUENCE_NB_OFFSET as int) + be32(sequence_number)
                + old(self)@.skip(SEQUENCE_NB_OFFSET + 4),
            crate::log_message::sequence_number(final(self)@) == sequence_number,
    {
        proof {
            use_type_invariant(&*self);
        }
        let ghost before = self.0@;
        proof {
            let after = before.take(14) + be32(sequence_number) + before.skip(18);
            assert(after.len() == before.len());
            assert(after.subrange(0, 4) =~= before.subrange(0, 4));
        }
        let mut taken = LogMessage::placeholder();
        std::mem::swap(self, &mut taken);
        let LogMessage(mut bytes) = taken;
        bytes.set(14, (sequence_number >> 24u32) as u8);
        bytes.set(15, (sequence_number >> 16u32) as u8);
        bytes.set(16, (sequence_number >> 8u32) as u8);
        bytes.set(17, sequence_number as u8);
        assert(bytes@ =~= before.take(14) + be32(sequence_number) + before.skip(18));
        proof {
            lemma_set_sequence_number(before, sequence_number);
        }
        *self = LogMessage(bytes);
    }

    /// A minimal frame: message type and sequence number parts, both zero.
    fn placeholder() -> (r: LogMessage)
        ensures
            r@ == serialize(
                seq![
                    MessagePart(MessagePartKey::MessageType, MessageData::Int32(0)),
                    MessagePart(MessagePartKey::MessageSeq, MessageData::Int32(0)),
                ],
            ),
            sequence_number(r@) == 0,
    {
        let mut parts: Vec<MessagePart> = Vec::new();
        parts.push(MessagePart(MessagePartKey::MessageType, MessageData::Int32(0)));
        parts.push(MessagePart(MessagePartKey::MessageSeq, MessageData::Int32(0)));
        assert(parts@ =~= seq![
            MessagePart(MessagePartKey::MessageType, MessageData::Int32(0)),
            MessagePart(MessagePartKey::MessageSeq, MessageData::Int32(0)),
        ]);
        proof {
            lemma_serialize_frame(parts@);
        }
        LogMessage(serialize_parts(&parts))
    }

    /// Returns a reference to the message's inner byte array.
    pub fn bytes(&self) -> (r: &[u8])
        ensures
            r@ == self@,
    {
        self.0.as_slice()
    }

    /// Returns a copy of the message's bytes.
    pub fn to_bytes(&self) -> (r: Vec<u8>)
        ensures
            r@ == self@,
    {
        let mut out = Vec::new();
        push_all(&mut out, self.0.as_slice());
        out
    }
}

/// Whether `parts` are the five parts every message starts with: message type, a null sequence
/// number, a timestamp in seconds and milliseconds, and the thread's name.
pub open spec fn is_standard_header(
    parts: Seq<MessagePart>,
    message_type: LogMessageType,
    thread_name: Seq<char>,
) -> bool {
    &&& parts.len() == 5
    &&& parts[0] == MessagePart(
        MessagePartKey::MessageType,
        MessageData::Int32(message_type.spec_code()),
    )
    &&& parts[1] == MessagePart(MessagePartKey::MessageSeq, MessageData::Int32(0))
    &&& exists|ts: u64| is_timestamp_parts(parts.subrange(2, 4), ts)
    &&& parts[4].0 == MessagePartKey::ThreadId
    &&& parts[4].1 matches MessageData::String(name) && name@ == thread_name
}

/// The time of a message: `ts` when given, else the current time in milliseconds since the
/// Unix epoch; a clock set before the epoch counts as the epoch.
fn timestamp_value(ts: Option<u64>) -> (r: u64)
    ensures
        ts matches Some(t) ==> r == t,
        ts is None ==> exists|reading: Option<u64>| r == clock_time(reading),
{
    match ts {
        Some(t) => t,
        None => time_of_reading(current_time_millis()),
    }
}

/// The time a clock `reading` (milliseconds since the Unix epoch) gives a message: the reading,
/// or the epoch when the clock is set before it.
pub open spec fn clock_time(reading: Option<u64>) -> u64 {
    match reading {
        Some(now) => now,
        None => 0,
    }
}

/// The time a clock `reading` gives a message.
fn time_of_reading(reading: Option<u64>) -> (r: u64)
    ensures
        r == clock_time(reading),
        reading matches Some(now) ==> r == now,
{
    match reading {
        Some(now) => now,
        None => 0,
    }
}

/// The parts that give the time `ts` as seconds and milliseconds.
fn timestamp_parts(ts: u64) -> (r: (MessagePart, MessagePart))
    ensures
        is_timestamp_parts(seq![r.0, r.1], ts),
{
    (
        MessagePart(MessagePartKey::TimestampS, MessageData::Int64(ts / 1000)),
        MessagePart(MessagePartKey::TimestampMs, MessageData::Int16((ts % 1000) as u16)),
    )
}

/// The serialized message made of `parts`.
fn serialize_parts(parts: &Vec<MessagePart>) -> (r: Vec<u8>)
    ensures
        r@ == serialize(parts@),
{
    let mut body: Vec<u8> = Vec::new();
    let n = parts.len();
    let mut i: usize = 0;
    while i < n
        invariant
            n == parts@.len(),
            i <= n,
            body@ == parts_bytes(parts@.take(i as int)),
        decreases n - i,
    {
        parts[i].write(&mut body);
        assert(parts@.take(i + 1).drop_last() =~= parts@.take(i as int));
        i += 1;
    }
    assert(parts@.take(n as int) =~= parts@);
    let total: u128 = body.len() as u128 + 2;
    let size_field = (total % 0x1_0000_0000u128) as u32;
    let count_field = ((n as u64) % 0x1_0000u64) as u16;
    let mut buffer: Vec<u8> = Vec::new();
    push_be32(&mut buffer, size_field);
    push_be16(&mut buffer, count_field);
    push_all(&mut buffer, body.as_slice());
    assert(buffer@ =~= serialize(parts@));
    buffer
}

/// Whether `parts` give the time `ts` (milliseconds since the Unix epoch) as seconds and
/// milliseconds.
pub open spec fn is_timestamp_parts(parts: Seq<MessagePart>, ts: u64) -> bool {
    &&& parts.len() == 2
    &&& parts[0] == MessagePart(MessagePartKey::TimestampS, MessageData::Int64(ts / 1000))
    &&& parts[1] == MessagePart(MessagePartKey::TimestampMs, MessageData::Int16((ts % 1000) as u16))
}

/// Whether `parts` start with the standard header of some message type and thread.
pub open spec fn starts_with_standard_header(parts: Seq<MessagePart>) -> bool {
    &&& parts.len() >= 5
    &&& exists|message_type: LogMessageType, thread_name: Seq<char>|
        #[trigger] is_standard_header(parts.take(5), message_type, thread_name)
}

/// Builder of a log message: the parts added so far, in order.
pub struct LogMessageBuilder(Vec<MessagePart>);

impl View for LogMessageBuilder {
    type V = Seq<MessagePart>;

    closed spec fn view(&self) -> Seq<MessagePart> {
        self.0@
    }
}

impl LogMessageBuilder {
    #[verifier::type_invariant]
    spec fn inv(self) -> bool {
        starts_with_standard_header(self.0@)
    }

    /// Starts a message of type `message_type`, built on the thread named `thread_name`: message
    /// type, a null sequence number (the log worker sets it), the current time and the thread.
    pub fn new(message_type: LogMessageType, thread_name: String) -> (r: LogMessageBuilder)
        ensures
            is_standard_header(r@, message_type, thread_name@),
    {
        Self::new_at(message_type, thread_name, timestamp_value(None))
    }

    /// Starts a message of type `message_type`, built on the thread named `thread_name`, at the
    /// time `millis` (milliseconds since the Unix epoch).
    fn new_at(message_type: LogMessageType, thread_name: String, millis: u64) -> (r:
        LogMessageBuilder)
        ensures
            is_standard_header(r@, message_type, thread_name@),
            is_timestamp_parts(r@.subrange(2, 4), millis),
    {
        let (seconds, millis_part) = timestamp_parts(millis);
        let mut parts: Vec<MessagePart> = Vec::new();
        parts.push(MessagePart(MessagePartKey::MessageType, MessageData::Int32(message_type.code())));
        parts.push(MessagePart(MessagePartKey::MessageSeq, MessageData::Int32(0)));
        parts.push(seconds);
        parts.push(millis_part);
        parts.push(MessagePart(MessagePartKey::ThreadId, MessageData::String(thread_name)));
        proof {
            assert(parts@.subrange(2, 4) =~= seq![seconds, millis_part]);
            assert(is_timestamp_parts(parts@.subrange(2, 4), millis));
            assert(parts@.take(5) =~= parts@);
            assert(is_standard_header(parts@.take(5), message_type, thread_name@));
            assert(starts_with_standard_header(parts@));
        }
        LogMessageBuilder(parts)
    }

    /// The parts added so far, in order.
    pub fn parts(&self) -> (r: &Vec<MessagePart>)
        ensures
            r@ == self@,
    {
        &self.0
    }

    /// Adds one part.
    fn with_part(self, part: MessagePart) -> (r: Self)
        ensures
            r@ == self@.push(part),
    {
        proof {
            use_type_invariant(&self);
        }
        let mut parts = self.0;
        let ghost before = parts@;
        parts.push(part);
        proof {
            assert(parts@.take(5) =~= before.take(5));
            assert(starts_with_standard_header(parts@));
        }
        LogMessageBuilder(parts)
    }

    /// Adds a 64-bit integer part.
    pub fn with_int64(self, key: MessagePartKey, value: u64) -> (r: Self)
        ensures
            r@ == self@.push(MessagePart(key, MessageData::Int64(value))),
    {
        self.with_part(MessagePart(key, MessageData::Int64(value)))
    }

    /// Adds a 32-bit integer part.
    pub fn with_int32(self, key: MessagePartKey, value: u32) -> (r: Self)
        ensures
            r@ == self@.push(MessagePart(key, MessageData::Int32(value))),
    {
        self.with_part(MessagePart(key, MessageData::Int32(value)))
    }

    /// Adds a 32-bit integer part if there is a value.
    pub fn with_int32_opt(self, key: MessagePartKey, value: Option<u32>) -> (r: Self)
        ensures
            r@ == match value {
                Some(v) => self@.push(MessagePart(key, MessageData::Int32(v))),
                None => self@,
            },
    {
        match value {
            Some(v) => self.with_int32(key, v),
            None => self,
        }
    }

    /// Adds a 16-bit integer part.
    pub fn with_int16(self, key: MessagePartKey, value: u16) -> (r: Self)
        ensures
            r@ == self@.push(MessagePart(key, MessageData::Int16(value))),
    {
        self.with_part(MessagePart(key, MessageData::Int16(value)))
    }

    /// Adds a part of raw bytes with the given payload type.
    fn with_bytes(self, key: MessagePartKey, data_type: MessagePartType, bytes: &[u8]) -> (r:
        Self)
        ensures
            r@.len() == self@.len() + 1,
            r@.drop_last() == self@,
            r@.last().0 == key,
            r@.last().1 matches MessageData::Bytes(t, b) && t == data_type && b@ == bytes@,
    {
        let mut copy = Vec::new();
        push_all(&mut copy, bytes);
        let r = self.with_part(MessagePart(key, MessageData::Bytes(data_type, copy)));
        assert(r@.drop_last() =~= self@);
        r
    }

    /// Adds a text part.
    pub fn with_string(self, key: MessagePartKey, string: String) -> (r: Self)
        ensures
            r@ == self@.push(MessagePart(key, MessageData::String(string))),
    {
        self.with_part(MessagePart(key, MessageData::String(string)))
    }

    /// Adds a text part if there is a text.
    pub fn with_string_opt(self, key: MessagePartKey, string: Option<String>) -> (r: Self)
        ensures
            r@ == match string {
                Some(s) => self@.push(MessagePart(key, MessageData::String(s))),
                None => self@,
            },
    {
        match string {
            Some(s) => self.with_string(key, s),
            None => self,
        }
    }

    /// Current size of the serialized message, in bytes, if it fits in a `usize`.
    pub fn size(&self) -> (r: Option<usize>)
        ensures
            r == (if message_size(self@) <= usize::MAX {
                Some(message_size(self@) as usize)
            } else {
                None::<usize>
            }),
    {
        let mut total: usize = 6;
        let n = self.0.len();
        let mut i: usize = 0;
        while i < n
            invariant
                n == self@.len(),
                i <= n,
                total == 6 + parts_bytes(self@.take(i as int)).len(),
            decreases n - i,
        {
            let part = &self.0[i];
            let ghost prefix = self@.take(i as int);
            assert(self@.take(i + 1).drop_last() =~= prefix);
            let part_size: usize = match &part.1 {
                MessageData::Int64(v) => {
                    assert(be64(*v).len() == 8);
                    10
                },
                MessageData::Int32(v) => {
                    assert(be32(*v).len() == 4);
                    6
                },
                MessageData::Int16(v) => {
                    assert(be16(*v).len() == 2);
                    4
                },
                MessageData::String(s) => {
                    let len = s.as_str().as_bytes().len();
                    assert(len == encode_utf8(s@).len());
                    if len > usize::MAX - 6 {
                        proof {
                            lemma_parts_bytes_prefix(self@, i + 1);
                        }
                        return None;
                    }
                    6 + len
                },
                MessageData::Bytes(_, b) => {
                    let len = b.len();
                    if len > usize::MAX - 6 {
                        proof {
                            lemma_parts_bytes_prefix(self@, i + 1);
                        }
                        return None;
                    }
                    6 + len
                },
            };
            assert(part.spec_bytes().len() == 2 + part.1.spec_bytes().len());
            assert(part_size == part.spec_bytes().len());
            if total > usize::MAX - part_size {
                proof {
                    lemma_parts_bytes_prefix(self@, i + 1);
                }
                return None;
            }
            total = total + part_size;
            i += 1;
        }
        assert(self@.take(n as int) =~= self@);
        Some(total)
    }

    /// Adds the message's severity and source descriptor, and its domain as a tag.
    pub fn with_header(
        self,
        filename: Option<String>,
        line_number: Option<u32>,
        method: Option<String>,
        domain: Option<Domain>,
        level: Level,
    ) -> (r: Self)
        ensures
            ({
                let base = with_source_descriptor_spec(
                    self@.push(
                        MessagePart(MessagePartKey::Level, MessageData::Int16(level.spec_code())),
                    ),
                    filename,
                    line_number,
                    method,
                );
                match domain {
                    Some(d) => {
                        &&& r@.len() == base.len() + 1
                        &&& r@.drop_last() == base
                        &&& r@.last().0 == MessagePartKey::Tag
                        &&& r@.last().1 matches MessageData::String(tag) && tag@ == d.spec_name()
                    },
                    None => r@ == base,
                }
            }),
    {
        let b = self.with_int16(MessagePartKey::Level, level.code());
        let b = b.with_source_descriptor(filename, line_number, method);
        match domain {
            Some(d) => {
                let r = b.with_string(MessagePartKey::Tag, d.name());
                assert(r@.drop_last() =~= b@);
                r
            },
            None => b,
        }
    }

    /// Adds a source file descriptor: file name, line number (only with a file name) and
    /// function name, each if given.
    pub fn with_source_descriptor(
        self,
        filename: Option<String>,
        line_number: Option<u32>,
        method: Option<String>,
    ) -> (r: Self)
        ensures
            r@ == with_source_descriptor_spec(self@, filename, line_number, method),
    {
        let line = match filename {
            Some(_) => line_number,
            None => None,
        };
        self.with_string_opt(MessagePartKey::FileName, filename).with_int32_opt(
            MessagePartKey::LineNumber,
            line,
        ).with_string_opt(MessagePartKey::FunctionName, method)
    }

    /// Adds `domain` as the message's tag.
    pub fn with_domain(self, domain: Domain) -> (r: Self)
        ensures
            r@.len() == self@.len() + 1,
            r@.drop_last() == self@,
            r@.last().0 == MessagePartKey::Tag,
            r@.last().1 matches MessageData::String(s) && s@ == domain.spec_name(),
    {
        let r = self.with_string(MessagePartKey::Tag, domain.name());
        assert(r@.drop_last() =~= self@);
        r
    }

    /// Adds a part of binary data.
    pub fn with_binary_data(self, key: MessagePartKey, bytes: &[u8]) -> (r: Self)
        ensures
            r@.len() == self@.len() + 1,
            r@.drop_last() == self@,
            r@.last().0 == key,
            r@.last().1 matches MessageData::Bytes(t, b) && t == MessagePartType::Binary && b@
                == bytes@,
    {
        self.with_bytes(key, MessagePartType::Binary, bytes)
    }

    /// Adds a part holding a PNG image.
    pub fn with_image_data(self, key: MessagePartKey, bytes: &[u8]) -> (r: Self)
        ensures
            r@.len() == self@.len() + 1,
            r@.drop_last() == self@,
            r@.last().0 == key,
            r@.last().1 matches MessageData::Bytes(t, b) && t == MessagePartType::Image && b@
                == bytes@,
    {
        self.with_bytes(key, MessagePartType::Image, bytes)
    }

    /// Adds the time `ts` (milliseconds since the Unix epoch), or the current time when there
    /// is none, as seconds and milliseconds; a clock set before the epoch counts as the epoch.
    pub fn with_timestamp(self, ts: Option<u64>) -> (r: Self)
        ensures
            r@.len() == self@.len() + 2,
            r@.take(self@.len() as int) == self@,
            ts matches Some(t) ==> is_timestamp_parts(r@.skip(self@.len() as int), t),
            exists|t: u64| is_timestamp_parts(r@.skip(self@.len() as int), t),
    {
        let value = timestamp_value(ts);
        let (seconds, millis) = timestamp_parts(value);
        let r = self.with_part(seconds).with_part(millis);
        assert(r@.take(self@.len() as int) =~= self@);
        assert(r@.skip(self@.len() as int) =~= seq![seconds, millis]);
        r
    }

    /// Adds the name of the thread that builds the message.
    fn with_thread_id(self, thread_name: String) -> (r: Self)
        ensures
            r@ == self@.push(MessagePart(MessagePartKey::ThreadId, MessageData::String(thread_name))),
    {
        self.with_string(MessagePartKey::ThreadId, thread_name)
    }

    /// Serializes the parts into a log message: whatever parts were added, it opens with the
    /// message type of the builder's first part, and its sequence number is null.
    pub fn freeze(self) -> (r: LogMessage)
        ensures
            r@ == serialize(self@),
            is_message_frame(r@),
            sequence_number(r@) == 0,
            is_frame_header(r@, self@[0].1->Int32_0),
            exists|message_type: LogMessageType| is_frame_header(r@, message_type.spec_code()),
    {
        proof {
            use_type_invariant(&self);
            let (message_type, thread_name) = choose|
                message_type: LogMessageType,
                thread_name: Seq<char>,
            | is_standard_header(self@.take(5), message_type, thread_name);
            lemma_frozen_header(self@, message_type, thread_name);
            assert(self@[0] == self@.take(5)[0]);
            assert(self@[1] == self@.take(5)[1]);
            lemma_serialize_frame(self@);
        }
        LogMessage(serialize_parts(&self.0))
    }

    /// Finalizes the message with a text `message` part.
    pub fn message(self, message: String) -> (r: LogMessage)
        ensures
            r@ == serialize(self@.push(MessagePart(MessagePartKey::Message, MessageData::String(message)))),
    {
        self.with_string(MessagePartKey::Message, message).freeze()
    }

    /// Finalizes the message with a part holding the PNG `image`.
    pub fn image(self, image: &[u8]) -> (r: LogMessage)
        ensures
            exists|b: Vec<u8>|
                b@ == image@ && r@ == serialize(
                    self@.push(
                        MessagePart(
                            MessagePartKey::Message,
                            MessageData::Bytes(MessagePartType::Image, b),
                        ),
                    ),
                ),
    {
        let b = self.with_image_data(MessagePartKey::Message, image);
        proof {
            assert(b@ =~= self@.push(b@.last()));
        }
        b.freeze()
    }

    /// Finalizes the message with a part of binary `data`.
    pub fn data(self, data: &[u8]) -> (r: LogMessage)
        ensures
            exists|b: Vec<u8>|
                b@ == data@ && r@ == serialize(
                    self@.push(
                        MessagePart(
                            MessagePartKey::Message,
                            MessageData::Bytes(MessagePartType::Binary, b),
                        ),
                    ),
                ),
    {
        let b = self.with_binary_data(MessagePartKey::Message, data);
        proof {
            assert(b@ =~= self@.push(b@.last()));
        }
        b.freeze()
    }
}

/// The parts after adding a source descriptor to `parts`.
pub open spec fn with_source_descriptor_spec(
    parts: Seq<MessagePart>,
    filename: Option<String>,
    line_number: Option<u32>,
    method: Option<String>,
) -> Seq<MessagePart> {
    let with_file = match filename {
        Some(f) => parts.push(MessagePart(MessagePartKey::FileName, MessageData::String(f))),
        None => parts,
    };
    let with_line = match (filename, line_number) {
        (Some(_), Some(l)) => with_file.push(
            MessagePart(MessagePartKey::LineNumber, MessageData::Int32(l)),
        ),
        _ => with_file,
    };
    match method {
        Some(m) => with_line.push(MessagePart(MessagePartKey::FunctionName, MessageData::String(m))),
        None => with_line,
    }
}

/// A text part with key `key` when there is a text, else nothing.
pub open spec fn optional_text_part(key: MessagePartKey, text: Option<String>) -> Seq<MessagePart> {
    match text {
        Some(t) => seq![MessagePart(key, MessageData::String(t))],
        None => Seq::empty(),
    }
}

/// Whether `bytes` is a client info message built on the thread named `thread_name`, with the
/// given system and process names.
pub open spec fn is_client_info(
    bytes: Seq<u8>,
    os: Option<String>,
    release: Option<String>,
    process_name: Option<String>,
    thread_name: Seq<char>,
) -> bool {
    exists|parts: Seq<MessagePart>|
        {
            &&& bytes == serialize(parts)
            &&& parts.len() >= 5
            &&& is_standard_header(parts.take(5), LogMessageType::ClientInfo, thread_name)
            &&& parts.skip(5) == optional_text_part(MessagePartKey::OsName, os)
                + optional_text_part(MessagePartKey::OsVersion, release) + optional_text_part(
                MessagePartKey::ClientName,
                process_name,
            )
        }
}

/// Whether `bytes` is a mark labelled `label` built on the thread named `thread_name` at the time
/// `millis`: a mark whose timestamp is `millis`.
pub open spec fn is_mark_at(bytes: Seq<u8>, label: String, thread_name: Seq<char>, millis: u64) -> bool {
    exists|parts: Seq<MessagePart>|
        {
            &&& bytes == serialize(parts)
            &&& parts.len() == 7
            &&& is_standard_header(parts.take(5), LogMessageType::Mark, thread_name)
            &&& is_timestamp_parts(parts.subrange(2, 4), millis)
            &&& parts[5] == MessagePart(
                MessagePartKey::Level,
                MessageData::Int16(Level::Error.spec_code()),
            )
            &&& parts[6] == MessagePart(MessagePartKey::Message, MessageData::String(label))
        }
}

/// A mark built at a given time is a mark.
proof fn lemma_mark_at_is_mark(bytes: Seq<u8>, label: String, thread_name: Seq<char>, millis: u64)
    requires
        is_mark_at(bytes, label, thread_name, millis),
    ensures
        is_mark(bytes, label, thread_name),
{
    let parts = choose|parts: Seq<MessagePart>|
        {
            &&& bytes == serialize(parts)
            &&& parts.len() == 7
            &&& is_standard_header(parts.take(5), LogMessageType::Mark, thread_name)
            &&& is_timestamp_parts(parts.subrange(2, 4), millis)
            &&& parts[5] == MessagePart(
                MessagePartKey::Level,
                MessageData::Int16(Level::Error.spec_code()),
            )
            &&& parts[6] == MessagePart(MessagePartKey::Message, MessageData::String(label))
        };
    assert(parts[6] == MessagePart(MessagePartKey::Message, MessageData::String(label)));
}

/// Whether `bytes` is a mark labelled `label` built on the thread named `thread_name`: a mark
/// message of severity `Error` with the label as its message.
pub open spec fn is_mark(bytes: Seq<u8>, label: String, thread_name: Seq<char>) -> bool {
    exists|parts: Seq<MessagePart>|
        {
            &&& bytes == serialize(parts)
            &&& parts.len() == 7
            &&& is_standard_header(parts.take(5), LogMessageType::Mark, thread_name)
            &&& parts[5] == MessagePart(
                MessagePartKey::Level,
                MessageData::Int16(Level::Error.spec_code()),
            )
            &&& parts[6] == MessagePart(MessagePartKey::Message, MessageData::String(label))
        }
}

/// The label that chrono gives the UTC time `millis` milliseconds after (or, negative, before)
/// the Unix epoch, with the pattern "%b %-d, %-I:%M:%S" (such as "Mar 7, 3:04:05"), or `None`
/// where chrono has no such time.
pub uninterp spec fn mark_time_label(millis: i64) -> Option<Seq<char>>;

/// Formats the UTC time `millis` milliseconds after the Unix epoch, through
/// `chrono::DateTime::from_timestamp_millis` and `DateTime::format` with the pattern
/// "%b %-d, %-I:%M:%S", or `None` where chrono has no such time. The outcome is named
/// `mark_time_label`; a text is never empty (the pattern always writes the month, day and time),
/// and chrono has every time within 262143 years of the common era, so every time within 10^15
/// ms (some 31688 years) of the epoch.
#[verifier::external_body]
fn format_mark_time(millis: i64) -> (r: Option<String>)
    ensures
        match r {
            Some(s) => mark_time_label(millis) == Some(s@),
            None => mark_time_label(millis) is None,
        },
        r matches Some(s) ==> s@.len() > 0,
        -1_000_000_000_000_000 < millis < 1_000_000_000_000_000 ==> r is Some,
{
    match chrono::DateTime::from_timestamp_millis(millis) {
        Some(time) => Some(time.format("%b %-d, %-I:%M:%S").to_string()),
        None => None,
    }
}

/// The mark label of the time `millis`: chrono's label of that time, or the epoch's where chrono
/// has no such time.
pub open spec fn mark_time_text_of(millis: i64) -> Seq<char> {
    match mark_time_label(millis) {
        Some(label) => label,
        None => mark_time_label(0)->Some_0,
    }
}

/// Labels a mark with the UTC time `millis` milliseconds after the Unix epoch, as in
/// "Mar 7, 3:04:05"; where chrono has no such time, with the epoch's label.
pub fn mark_time_text(millis: i64) -> (r: String)
    ensures
        r@ == mark_time_text_of(millis),
        r@.len() > 0,
{
    match format_mark_time(millis) {
        Some(label) => label,
        None => {
            let epoch = format_mark_time(0);
            epoch.unwrap()
        },
    }
}

/// The time, in milliseconds since the Unix epoch, that a clock `reading` labels a mark with: the
/// reading itself, or the epoch when the clock is set before it (no reading) or beyond what a
/// signed 64-bit count holds.
pub open spec fn mark_time_millis(reading: Option<u64>) -> i64 {
    match reading {
        Some(t) => if t <= i64::MAX {
            t as i64
        } else {
            0
        },
        None => 0,
    }
}

/// The time a clock `reading` labels a mark with.
fn mark_time_of_reading(reading: Option<u64>) -> (r: i64)
    ensures
        r == mark_time_millis(reading),
{
    match reading {
        Some(t) => if t <= i64::MAX as u64 {
            t as i64
        } else {
            0
        },
        None => 0,
    }
}

/// The current time as a mark's timestamp (milliseconds since the Unix epoch; a clock set
/// before the epoch counts as the epoch), with its label.
fn current_mark_label() -> (r: (String, u64))
    ensures
        r.0@.len() > 0,
        r.0@ == mark_time_text_of(mark_time_millis(Some(r.1))),
        exists|reading: Option<u64>| r.0@ == mark_time_text_of(mark_time_millis(reading)),
{
    let now = timestamp_value(None);
    let label = mark_time_text(mark_time_of_reading(Some(now)));
    (label, now)
}

/// Calls `sys_info::os_type`, the name of the operating system, or `None` on its error. Nothing
/// is stated of the text, which depends on the machine.
#[verifier::external_body]
fn os_type() -> Option<String> {
    sys_info::os_type().ok()
}

/// Calls `sys_info::os_release`, the release of the operating system, or `None` on its error.
/// Nothing is stated of the text, which depends on the machine.
#[verifier::external_body]
fn os_release() -> Option<String> {
    sys_info::os_release().ok()
}

/// The system clock's readings, a type of std.
#[verifier::external_type_specification]
#[verifier::external_body]
pub struct ExSystemTime(std::time::SystemTime);

/// Calls `std::time::SystemTime::now`, the system clock's current reading. Nothing is stated of
/// it, which depends on the time.
#[verifier::external_body]
fn system_now() -> std::time::SystemTime {
    std::time::SystemTime::now()
}

/// Calls `SystemTime::duration_since` with `std::time::UNIX_EPOCH`: the time elapsed since the
/// epoch, or `None` (std's error) when `time` is earlier. Nothing is stated of the duration.
#[verifier::external_body]
fn since_unix_epoch(time: &std::time::SystemTime) -> Option<std::time::Duration> {
    match time.duration_since(std::time::UNIX_EPOCH) {
        Ok(elapsed) => Some(elapsed),
        Err(_) => None,
    }
}

/// Calls `std::time::Duration::as_millis`, the whole milliseconds of `duration`, which Verus
/// sees only as an opaque value.
#[verifier::external_body]
fn whole_millis(duration: &std::time::Duration) -> u128 {
    duration.as_millis()
}

/// Reads the system clock: milliseconds since the Unix epoch (kept to 64 bits), or `None` when
/// the clock is set before the epoch.
fn current_time_millis() -> Option<u64> {
    let now = system_now();
    match since_unix_epoch(&now) {
        Some(elapsed) => Some(whole_millis(&elapsed) as u64),
        None => None,
    }
}

} // verus!
