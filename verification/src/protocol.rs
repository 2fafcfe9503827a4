//! The wire protocol: the messages of control and data channels, their binary
//! form, and how they are read back from the bytes received so far.
use crate::buffers;
use crate::text;
use crate::wire;
use vstd::prelude::*;

verus! {

/// Bytes of a SHA-256 digest.
pub const HASH_WIDTH_IN_BYTES: usize = 32;

/// Largest dictionary that a control channel carries.
pub const MAX_DICT_PUSH_BYTES: u64 = 16777216;

pub const PROTO_V1: u8 = 1;

pub const CURRENT_PROTO_VERSION: u8 = PROTO_V1;

pub type Digest = [u8; 32];

/// The SHA-256 digest of `data`.
pub uninterp spec fn sha256(data: Seq<u8>) -> Seq<u8>;

/// `Sha256::digest` of the `sha2` crate: the result depends on the bytes of
/// `data` alone.
#[verifier::external_body]
pub fn digest(data: &[u8]) -> (r: Digest)
    ensures
        r@ == sha256(data@),
{
    <sha2::Sha256 as sha2::Digest>::digest(data).into()
}

/// The digest of all zero bytes: no dictionary.
pub open spec fn zero_digest() -> Seq<u8> {
    Seq::new(32, |i: int| 0u8)
}

/// The digest of all zero bytes.
pub fn zero() -> (r: Digest)
    ensures
        r@ == zero_digest(),
{
    let r: Digest = [0u8; 32];
    proof {
        assert(r@ =~= zero_digest());
    }
    r
}

/// Whether two digests are equal.
pub fn same_digest(a: &Digest, b: &Digest) -> (r: bool)
    ensures
        r == (a@ == b@),
{
    let mut i: usize = 0;
    while i < 32
        invariant
            i <= 32,
            forall|j: int| 0 <= j < i ==> a@[j] == b@[j],
        decreases 32 - i,
    {
        if a[i] != b[i] {
            proof {
                assert(a@[i as int] != b@[i as int]);
            }
            return false;
        }
        i += 1;
    }
    proof {
        assert(a@ =~= b@);
    }
    true
}

/// A digest made of 32 bytes.
pub fn digest_from(s: &[u8]) -> (r: Digest)
    requires
        s@.len() == 32,
    ensures
        r@ == s@,
{
    let mut r: Digest = [0u8; 32];
    let mut i: usize = 0;
    while i < 32
        invariant
            i <= 32,
            s@.len() == 32,
            forall|j: int| 0 <= j < i ==> r@[j] == s@[j],
        decreases 32 - i,
    {
        r[i] = s[i];
        i += 1;
    }
    proof {
        assert(r@ =~= s@);
    }
    r
}

/// Two digests with the same bytes are the same digest.
pub proof fn lemma_same_digest(a: Digest, b: Digest)
    requires
        a@ == b@,
    ensures
        a == b,
{
    assert forall|i: int| 0 <= i < 32 implies a[i] == b[i] by {
        assert(a@[i] == b@[i]);
    }
    assert(a =~= b);
}

/// A message read from the bytes received so far, or how many more bytes it
/// takes to go on.
pub enum Parsed<T> {
    NeedMore(usize),
    Done { value: T, used: usize },
}

/// Why a message cannot be read.
#[derive(Debug, Clone, Copy, PartialEq, Eq)]
pub enum ProtocolError {
    DeserializeHello,
    VersionMismatch(u8),
    DeserializeAuth,
    DeserializeAck,
    DeserializeControlCmd,
    DictionaryTooLarge,
    UnknownControlTag(u32),
    DeserializeDataCmd,
    UnknownDataTag(u32),
    DeserializeUdpHeader,
}

impl ProtocolError {
    /// What the error says.
    pub open spec fn text(self) -> Seq<char> {
        match self {
            ProtocolError::DeserializeHello => "Failed to deserialize hello"@,
            ProtocolError::VersionMismatch(v) => "Protocol version mismatched. Expected "@
                + text::decimal(CURRENT_PROTO_VERSION as nat) + ", got "@ + text::decimal(v as nat)
                + ". Please update `rathole`."@,
            ProtocolError::DeserializeAuth => "Failed to deserialize auth"@,
            ProtocolError::DeserializeAck => "Failed to deserialize ack"@,
            ProtocolError::DeserializeControlCmd => "Failed to deserialize control cmd"@,
            ProtocolError::DictionaryTooLarge => "dictionary too large"@,
            ProtocolError::UnknownControlTag(tag) => "Unknown ControlChannelCmd tag: "@
                + text::decimal(tag as nat),
            ProtocolError::DeserializeDataCmd => "Failed to deserialize data cmd"@,
            ProtocolError::UnknownDataTag(tag) => "Unknown DataChannelCmd tag: "@ + text::decimal(
                tag as nat,
            ),
            ProtocolError::DeserializeUdpHeader => "Failed to deserialize UdpHeader"@,
        }
    }

    /// What the error says.
    pub fn message(&self) -> (r: String)
        ensures
            r@ == self.text(),
    {
        let mut out = String::new();
        match *self {
            ProtocolError::DeserializeHello => out.push_str("Failed to deserialize hello"),
            ProtocolError::VersionMismatch(v) => {
                out.push_str("Protocol version mismatched. Expected ");
                text::push_decimal(&mut out, CURRENT_PROTO_VERSION as u64);
                out.push_str(", got ");
                text::push_decimal(&mut out, v as u64);
                out.push_str(". Please update `rathole`.");
            },
            ProtocolError::DeserializeAuth => out.push_str("Failed to deserialize auth"),
            ProtocolError::DeserializeAck => out.push_str("Failed to deserialize ack"),
            ProtocolError::DeserializeControlCmd => out.push_str(
                "Failed to deserialize control cmd",
            ),
            ProtocolError::DictionaryTooLarge => out.push_str("dictionary too large"),
            ProtocolError::UnknownControlTag(tag) => {
                out.push_str("Unknown ControlChannelCmd tag: ");
                text::push_decimal(&mut out, tag as u64);
            },
            ProtocolError::DeserializeDataCmd => out.push_str("Failed to deserialize data cmd"),
            ProtocolError::UnknownDataTag(tag) => {
                out.push_str("Unknown DataChannelCmd tag: ");
                text::push_decimal(&mut out, tag as u64);
            },
            ProtocolError::DeserializeUdpHeader => out.push_str("Failed to deserialize UdpHeader"),
        }
        proof {
            assert(out@ =~= self.text());
        }
        out
    }
}

/// The reader asks for `n` more bytes.
pub open spec fn needs<T>(r: Result<Parsed<T>, ProtocolError>, n: int) -> bool {
    r matches Ok(Parsed::NeedMore(m)) && m == n
}

/// Opens a control or a data channel.
#[derive(Debug, Clone, Copy)]
pub enum Hello {
    /// The digest of the service name, or a nonce.
    ControlChannelHello(u8, Digest),
    /// The session key that authenticated the control channel.
    DataChannelHello(u8, Digest),
}

impl Hello {
    pub open spec fn version(self) -> u8 {
        match self {
            Hello::ControlChannelHello(v, _) => v,
            Hello::DataChannelHello(v, _) => v,
        }
    }

    /// The bytes of the message.
    pub open spec fn encoding(self) -> Seq<u8> {
        match self {
            Hello::ControlChannelHello(v, d) => wire::u32_le(0) + seq![v] + d@,
            Hello::DataChannelHello(v, d) => wire::u32_le(1) + seq![v] + d@,
        }
    }

    pub fn encode(&self) -> (r: Vec<u8>)
        ensures
            r@ == self.encoding(),
    {
        match self {
            Hello::ControlChannelHello(v, d) => wire::serialize_u32_u8_digest(0, *v, d),
            Hello::DataChannelHello(v, d) => wire::serialize_u32_u8_digest(1, *v, d),
        }
    }
}

/// The answer to the nonce of a control channel: the session key.
#[derive(Debug, Clone, Copy)]
pub struct Auth(pub Digest);

impl Auth {
    /// The bytes of the message.
    pub open spec fn encoding(self) -> Seq<u8> {
        self.0@
    }

    pub fn encode(&self) -> (r: Vec<u8>)
        ensures
            r@ == self.encoding(),
    {
        wire::serialize_digest(&self.0)
    }
}

/// The server's verdict on a control channel.
#[derive(Debug, Clone, Copy, PartialEq, Eq, Structural)]
pub enum Ack {
    Accepted,
    ServiceNotExist,
    AuthFailed,
}

impl Ack {
    pub open spec fn tag(self) -> u32 {
        match self {
            Ack::Accepted => 0,
            Ack::ServiceNotExist => 1,
            Ack::AuthFailed => 2,
        }
    }

    /// The bytes of the message.
    pub open spec fn encoding(self) -> Seq<u8> {
        wire::u32_le(self.tag())
    }

    pub fn encode(&self) -> (r: Vec<u8>)
        ensures
            r@ == self.encoding(),
    {
        match self {
            Ack::Accepted => wire::serialize_u32(0),
            Ack::ServiceNotExist => wire::serialize_u32(1),
            Ack::AuthFailed => wire::serialize_u32(2),
        }
    }

    /// What the verdict says.
    pub open spec fn text(self) -> Seq<char> {
        match self {
            Ack::Accepted => "Ok"@,
            Ack::ServiceNotExist => "Service not exist"@,
            Ack::AuthFailed => "Incorrect token"@,
        }
    }

    /// What the verdict says.
    pub fn message(&self) -> (r: &'static str)
        ensures
            r@ == self.text(),
    {
        match self {
            Ack::Accepted => "Ok",
            Ack::ServiceNotExist => "Service not exist",
            Ack::AuthFailed => "Incorrect token",
        }
    }
}

/// What the server tells the client on a control channel.
#[derive(PartialEq, Eq)]
pub enum ControlChannelCmd {
    CreateDataChannel,
    HeartBeat,
    UpdateCompressionDict { digest: Digest, dictionary: Vec<u8> },
}

/// The bytes of `data` as a list of decimal numbers between brackets.
pub open spec fn byte_list(data: Seq<u8>) -> Seq<char> {
    "["@ + byte_list_items(data) + "]"@
}

/// The bytes of `data` as decimal numbers, with a comma and a space between.
pub open spec fn byte_list_items(data: Seq<u8>) -> Seq<char>
    decreases data.len(),
{
    if data.len() == 0 {
        Seq::empty()
    } else if data.len() == 1 {
        text::decimal(data[0] as nat)
    } else {
        byte_list_items(data.drop_last()) + ", "@ + text::decimal(data.last() as nat)
    }
}

fn push_byte_list(out: &mut String, data: &[u8])
    ensures
        final(out)@ == old(out)@ + byte_list(data@),
{
    out.push_str("[");
    let mut i: usize = 0;
    while i < data.len()
        invariant
            i <= data@.len(),
            out@ == old(out)@ + "["@ + byte_list_items(data@.take(i as int)),
        decreases data@.len() - i,
    {
        if i > 0 {
            out.push_str(", ");
        }
        text::push_decimal(out, data[i] as u64);
        proof {
            let next = data@.take(i + 1);
            assert(next.drop_last() =~= data@.take(i as int));
            assert(next.last() == data@[i as int]);
            assert(out@ =~= old(out)@ + "["@ + byte_list_items(next));
        }
        i += 1;
    }
    out.push_str("]");
    proof {
        assert(data@.take(data@.len() as int) =~= data@);
        assert(out@ =~= old(out)@ + byte_list(data@));
    }
}

impl ControlChannelCmd {
    /// The bytes of the message.
    pub open spec fn encoding(self) -> Seq<u8> {
        match self {
            ControlChannelCmd::CreateDataChannel => wire::u32_le(0),
            ControlChannelCmd::HeartBeat => wire::u32_le(1),
            ControlChannelCmd::UpdateCompressionDict { digest, dictionary } => wire::u32_le(2)
                + digest@ + wire::u64_le(dictionary@.len() as u64) + dictionary@,
        }
    }

    pub fn encode(&self) -> (r: Vec<u8>)
        ensures
            r@ == self.encoding(),
    {
        match self {
            ControlChannelCmd::CreateDataChannel => wire::serialize_u32(0),
            ControlChannelCmd::HeartBeat => wire::serialize_u32(1),
            ControlChannelCmd::UpdateCompressionDict { digest, dictionary } =>
            wire::serialize_u32_digest_bytes(2, digest, dictionary.as_slice()),
        }
    }

    /// The message for logs. A dictionary holds excerpts of real traffic, so
    /// only its length is shown.
    pub open spec fn log_text(self) -> Seq<char> {
        match self {
            ControlChannelCmd::CreateDataChannel => "CreateDataChannel"@,
            ControlChannelCmd::HeartBeat => "HeartBeat"@,
            ControlChannelCmd::UpdateCompressionDict { digest, dictionary } =>
            "UpdateCompressionDict { digest: "@ + byte_list(digest@) + ", dictionary: MASKED("@
                + text::decimal(dictionary@.len()) + " bytes) }"@,
        }
    }

    /// The message for logs, without the bytes of a dictionary.
    pub fn debug(&self) -> (r: String)
        ensures
            r@ == self.log_text(),
    {
        let mut out = String::new();
        match self {
            ControlChannelCmd::CreateDataChannel => out.push_str("CreateDataChannel"),
            ControlChannelCmd::HeartBeat => out.push_str("HeartBeat"),
            ControlChannelCmd::UpdateCompressionDict { digest, dictionary } => {
                out.push_str("UpdateCompressionDict { digest: ");
                push_byte_list(&mut out, digest);
                out.push_str(", dictionary: MASKED(");
                text::push_decimal(&mut out, dictionary.len() as u64);
                out.push_str(" bytes) }");
            },
        }
        proof {
            assert(out@ =~= self.log_text());
        }
        out
    }
}

/// What the server tells the client on a data channel.
#[derive(Debug, Clone, Copy, PartialEq, Eq)]
pub enum DataChannelCmd {
    StartForwardTcp,
    StartForwardUdp,
    StartForwardTcpZstd { dict_digest: Digest },
    StartForwardUdpZstd { dict_digest: Digest },
    StartForwardTcpReuse,
    StartForwardTcpZstdReuse { dict_digest: Digest },
}

impl DataChannelCmd {
    /// The bytes of the message.
    pub open spec fn encoding(self) -> Seq<u8> {
        match self {
            DataChannelCmd::StartForwardTcp => wire::u32_le(0),
            DataChannelCmd::StartForwardUdp => wire::u32_le(1),
            DataChannelCmd::StartForwardTcpZstd { dict_digest } => wire::u32_le(2) + dict_digest@,
            DataChannelCmd::StartForwardUdpZstd { dict_digest } => wire::u32_le(3) + dict_digest@,
            DataChannelCmd::StartForwardTcpReuse => wire::u32_le(4),
            DataChannelCmd::StartForwardTcpZstdReuse { dict_digest } => wire::u32_le(5)
                + dict_digest@,
        }
    }

    pub fn encode(&self) -> (r: Vec<u8>)
        ensures
            r@ == self.encoding(),
    {
        match self {
            DataChannelCmd::StartForwardTcp => wire::serialize_u32(0),
            DataChannelCmd::StartForwardUdp => wire::serialize_u32(1),
            DataChannelCmd::StartForwardTcpZstd { dict_digest } => wire::serialize_u32_digest(
                2,
                dict_digest,
            ),
            DataChannelCmd::StartForwardUdpZstd { dict_digest } => wire::serialize_u32_digest(
                3,
                dict_digest,
            ),
            DataChannelCmd::StartForwardTcpReuse => wire::serialize_u32(4),
            DataChannelCmd::StartForwardTcpZstdReuse { dict_digest } => wire::serialize_u32_digest(
                5,
                dict_digest,
            ),
        }
    }
}

/// The sizes of the messages, or of their first part, in bytes.
pub struct PacketLength {
    pub hello: usize,
    pub ack: usize,
    pub auth: usize,
    pub c_cmd: usize,
    pub d_cmd: usize,
}

impl PacketLength {
    pub fn new() -> (r: PacketLength)
        ensures
            r.hello == 37,
            r.ack == 4,
            r.auth == 32,
            r.c_cmd == 4,
            r.d_cmd == 4,
    {
        let username = "default";
        let d = digest(username.as_bytes());
        let hello: usize = wire::serialized_size_u32_u8_digest(0, CURRENT_PROTO_VERSION, &d);
        let c_cmd: usize = wire::serialized_size_u32(0);
        let d_cmd: usize = wire::serialized_size_u32(0);
        let ack: usize = wire::serialized_size_u32(0);
        let auth: usize = wire::serialized_size_digest(&d);
        PacketLength { hello, ack, auth, c_cmd, d_cmd }
    }
}

/// What reading a hello from the bytes `s` gives.
pub open spec fn hello_outcome(s: Seq<u8>, r: Result<Parsed<Hello>, ProtocolError>) -> bool {
    if s.len() < 37 {
        needs(r, 37 - s.len())
    } else if wire::u32_of(s.subrange(0, 4)) > 1 {
        r == Err::<Parsed<Hello>, ProtocolError>(ProtocolError::DeserializeHello)
    } else if s[4] != CURRENT_PROTO_VERSION {
        r == Err::<Parsed<Hello>, ProtocolError>(ProtocolError::VersionMismatch(s[4]))
    } else {
        r matches Ok(Parsed::Done { value, used }) && used == 37 && value.encoding()
            == s.subrange(0, 37)
    }
}

/// Reads a hello from the bytes received so far.
pub fn read_hello(bytes: &[u8]) -> (r: Result<Parsed<Hello>, ProtocolError>)
    ensures
        hello_outcome(bytes@, r),
{
    let n: usize = PacketLength::new().hello;
    if bytes.len() < n {
        return Ok(Parsed::NeedMore(n - bytes.len()));
    }
    let (tag, version, d) = match wire::deserialize_u32_u8_digest(&bytes[0..n]) {
        Some(v) => v,
        None => return Err(ProtocolError::DeserializeHello),
    };
    proof {
        let s = bytes@;
        let h = s.subrange(0, 37);
        assert(h.subrange(0, 4) =~= s.subrange(0, 4));
        wire::lemma_u32_of_le(s.subrange(0, 4));
        assert(wire::u32_le(tag) + seq![version] + d@ =~= h);
    }
    let hello = if tag == 0 {
        Hello::ControlChannelHello(version, d)
    } else if tag == 1 {
        Hello::DataChannelHello(version, d)
    } else {
        return Err(ProtocolError::DeserializeHello);
    };
    if version != CURRENT_PROTO_VERSION {
        return Err(ProtocolError::VersionMismatch(version));
    }
    Ok(Parsed::Done { value: hello, used: n })
}

/// What reading an authentication from the bytes `s` gives.
pub open spec fn auth_outcome(s: Seq<u8>, r: Result<Parsed<Auth>, ProtocolError>) -> bool {
    if s.len() < 32 {
        needs(r, 32 - s.len())
    } else {
        r matches Ok(Parsed::Done { value, used }) && used == 32 && value.encoding()
            == s.subrange(0, 32)
    }
}

/// Reads an authentication from the bytes received so far.
pub fn read_auth(bytes: &[u8]) -> (r: Result<Parsed<Auth>, ProtocolError>)
    ensures
        auth_outcome(bytes@, r),
{
    let n: usize = PacketLength::new().auth;
    if bytes.len() < n {
        return Ok(Parsed::NeedMore(n - bytes.len()));
    }
    match wire::deserialize_digest(&bytes[0..n]) {
        Some(d) => {
            proof {
                assert(bytes@.subrange(0, 32).subrange(0, 32) =~= bytes@.subrange(0, 32));
            }
            Ok(Parsed::Done { value: Auth(d), used: n })
        },
        None => Err(ProtocolError::DeserializeAuth),
    }
}

/// What reading a verdict from the bytes `s` gives.
pub open spec fn ack_outcome(s: Seq<u8>, r: Result<Parsed<Ack>, ProtocolError>) -> bool {
    if s.len() < 4 {
        needs(r, 4 - s.len())
    } else if wire::u32_of(s.subrange(0, 4)) > 2 {
        r == Err::<Parsed<Ack>, ProtocolError>(ProtocolError::DeserializeAck)
    } else {
        r matches Ok(Parsed::Done { value, used }) && used == 4 && value.encoding() == s.subrange(
            0,
            4,
        )
    }
}

/// Reads a verdict from the bytes received so far.
pub fn read_ack(bytes: &[u8]) -> (r: Result<Parsed<Ack>, ProtocolError>)
    ensures
        ack_outcome(bytes@, r),
{
    let n: usize = PacketLength::new().ack;
    if bytes.len() < n {
        return Ok(Parsed::NeedMore(n - bytes.len()));
    }
    let tag: u32 = match wire::deserialize_u32(&bytes[0..n]) {
        Some(v) => v,
        None => return Err(ProtocolError::DeserializeAck),
    };
    proof {
        assert(bytes@.subrange(0, 4).subrange(0, 4) =~= bytes@.subrange(0, 4));
        wire::lemma_u32_of_le(bytes@.subrange(0, 4));
    }
    let ack = if tag == 0 {
        Ack::Accepted
    } else if tag == 1 {
        Ack::ServiceNotExist
    } else if tag == 2 {
        Ack::AuthFailed
    } else {
        return Err(ProtocolError::DeserializeAck);
    };
    Ok(Parsed::Done { value: ack, used: n })
}

/// What reading a control command from the bytes `s` gives.
pub open spec fn control_outcome(
    s: Seq<u8>,
    r: Result<Parsed<ControlChannelCmd>, ProtocolError>,
) -> bool {
    let tag = wire::u32_of(s.subrange(0, 4));
    let dictionary_len = wire::u64_of(s.subrange(36, 44)) as int;
    if s.len() < 4 {
        needs(r, 4 - s.len())
    } else if tag <= 1 {
        r matches Ok(Parsed::Done { value, used }) && used == 4 && value.encoding() == s.subrange(
            0,
            4,
        )
    } else if tag > 2 {
        r == Err::<Parsed<ControlChannelCmd>, ProtocolError>(
            ProtocolError::UnknownControlTag(tag as u32),
        )
    } else if s.len() < 36 {
        needs(r, 36 - s.len())
    } else if s.len() < 44 {
        needs(r, 44 - s.len())
    } else if dictionary_len > MAX_DICT_PUSH_BYTES {
        r == Err::<Parsed<ControlChannelCmd>, ProtocolError>(ProtocolError::DictionaryTooLarge)
    } else if s.len() < 44 + dictionary_len {
        needs(r, 44 + dictionary_len - s.len())
    } else {
        r matches Ok(Parsed::Done { value, used }) && used == 44 + dictionary_len
            && value.encoding() == s.subrange(0, 44 + dictionary_len)
    }
}

/// Reads a control command from the bytes received so far.
pub fn read_control_cmd(bytes: &[u8]) -> (r: Result<Parsed<ControlChannelCmd>, ProtocolError>)
    ensures
        control_outcome(bytes@, r),
{
    let n: usize = PacketLength::new().c_cmd;
    if bytes.len() < n {
        return Ok(Parsed::NeedMore(n - bytes.len()));
    }
    let tag: u32 = wire::read_u32_le(&bytes[0..n]);
    proof {
        assert(bytes@.subrange(0, 4).subrange(0, 4) =~= bytes@.subrange(0, 4));
        wire::lemma_u32_of_le(bytes@.subrange(0, 4));
    }
    if tag == 0 || tag == 1 {
        return match wire::deserialize_u32(&bytes[0..n]) {
            Some(0) => Ok(Parsed::Done { value: ControlChannelCmd::CreateDataChannel, used: n }),
            Some(1) => Ok(Parsed::Done { value: ControlChannelCmd::HeartBeat, used: n }),
            _ => Err(ProtocolError::DeserializeControlCmd),
        };
    }
    if tag != 2 {
        return Err(ProtocolError::UnknownControlTag(tag));
    }
    let digest_end: usize = n + HASH_WIDTH_IN_BYTES;
    if bytes.len() < digest_end {
        return Ok(Parsed::NeedMore(digest_end - bytes.len()));
    }
    let d = digest_from(&bytes[n..digest_end]);
    let length_end: usize = digest_end + 8;
    if bytes.len() < length_end {
        return Ok(Parsed::NeedMore(length_end - bytes.len()));
    }
    let dictionary_len: u64 = wire::read_u64_le(&bytes[digest_end..length_end]);
    if dictionary_len > MAX_DICT_PUSH_BYTES {
        return Err(ProtocolError::DictionaryTooLarge);
    }
    let end: usize = length_end + dictionary_len as usize;
    if bytes.len() < end {
        return Ok(Parsed::NeedMore(end - bytes.len()));
    }
    let dictionary = slice_to_vec(&bytes[length_end..end]);
    proof {
        let s = bytes@;
        wire::lemma_u64_of_le(s.subrange(36, 44));
        assert(wire::u32_le(2) + d@ + wire::u64_le(dictionary@.len() as u64) + dictionary@
            =~= s.subrange(0, end as int));
    }
    Ok(
        Parsed::Done {
            value: ControlChannelCmd::UpdateCompressionDict { digest: d, dictionary },
            used: end,
        },
    )
}

/// What reading a data command from the bytes `s` gives.
pub open spec fn data_outcome(
    s: Seq<u8>,
    r: Result<Parsed<DataChannelCmd>, ProtocolError>,
) -> bool {
    let tag = wire::u32_of(s.subrange(0, 4));
    if s.len() < 4 {
        needs(r, 4 - s.len())
    } else if tag > 5 {
        r == Err::<Parsed<DataChannelCmd>, ProtocolError>(ProtocolError::UnknownDataTag(tag as u32))
    } else if tag == 0 || tag == 1 || tag == 4 {
        r matches Ok(Parsed::Done { value, used }) && used == 4 && value.encoding() == s.subrange(
            0,
            4,
        )
    } else if s.len() < 36 {
        needs(r, 36 - s.len())
    } else {
        r matches Ok(Parsed::Done { value, used }) && used == 36 && value.encoding()
            == s.subrange(0, 36)
    }
}

/// Reads a data command from the bytes received so far.
pub fn read_data_cmd(bytes: &[u8]) -> (r: Result<Parsed<DataChannelCmd>, ProtocolError>)
    ensures
        data_outcome(bytes@, r),
{
    let n: usize = PacketLength::new().d_cmd;
    if bytes.len() < n {
        return Ok(Parsed::NeedMore(n - bytes.len()));
    }
    let tag: u32 = wire::read_u32_le(&bytes[0..n]);
    proof {
        assert(bytes@.subrange(0, 4).subrange(0, 4) =~= bytes@.subrange(0, 4));
        wire::lemma_u32_of_le(bytes@.subrange(0, 4));
    }
    if tag == 0 || tag == 1 || tag == 4 {
        return match wire::deserialize_u32(&bytes[0..n]) {
            Some(0) => Ok(Parsed::Done { value: DataChannelCmd::StartForwardTcp, used: n }),
            Some(1) => Ok(Parsed::Done { value: DataChannelCmd::StartForwardUdp, used: n }),
            Some(4) => Ok(Parsed::Done { value: DataChannelCmd::StartForwardTcpReuse, used: n }),
            _ => Err(ProtocolError::DeserializeDataCmd),
        };
    }
    if tag > 5 {
        return Err(ProtocolError::UnknownDataTag(tag));
    }
    let end: usize = n + HASH_WIDTH_IN_BYTES;
    if bytes.len() < end {
        return Ok(Parsed::NeedMore(end - bytes.len()));
    }
    let (read_tag, dict_digest) = match wire::deserialize_u32_digest(&bytes[0..end]) {
        Some(v) => v,
        None => return Err(ProtocolError::DeserializeDataCmd),
    };
    proof {
        let s = bytes@;
        assert(s.subrange(0, 36).subrange(0, 4) =~= s.subrange(0, 4));
        assert(wire::u32_le(read_tag) + dict_digest@ =~= s.subrange(0, 36));
    }
    let cmd = if read_tag == 2 {
        DataChannelCmd::StartForwardTcpZstd { dict_digest }
    } else if read_tag == 3 {
        DataChannelCmd::StartForwardUdpZstd { dict_digest }
    } else {
        DataChannelCmd::StartForwardTcpZstdReuse { dict_digest }
    };
    Ok(Parsed::Done { value: cmd, used: end })
}

/// The bytes of a slice in a vector.
pub fn slice_to_vec(s: &[u8]) -> (r: Vec<u8>)
    ensures
        r@ == s@,
{
    let mut r: Vec<u8> = Vec::new();
    r.extend_from_slice(s);
    proof {
        assert(r@ =~= s@);
    }
    r
}

/// A hello that was written is read back, whatever follows it on the wire.
pub proof fn law_hello_round_trip(
    hello: Hello,
    rest: Seq<u8>,
    r: Result<Parsed<Hello>, ProtocolError>,
)
    requires
        hello.version() == CURRENT_PROTO_VERSION,
        hello_outcome(hello.encoding() + rest, r),
    ensures
        r matches Ok(Parsed::Done { value, used }) && value == hello && used
            == hello.encoding().len(),
{
    let s = hello.encoding() + rest;
    let tag: u32 = match hello {
        Hello::ControlChannelHello(_, _) => 0,
        Hello::DataChannelHello(_, _) => 1,
    };
    lemma_tag_first(tag, s);
    let value = r->Ok_0->value;
    assert(s.subrange(0, 37) =~= hello.encoding());
    lemma_tag_first(
        match value {
            Hello::ControlChannelHello(_, _) => 0,
            Hello::DataChannelHello(_, _) => 1,
        },
        value.encoding(),
    );
    assert(value.encoding().subrange(0, 4) == hello.encoding().subrange(0, 4));
    assert(hello.encoding().subrange(0, 4) =~= s.subrange(0, 4));
    let a = match hello {
        Hello::ControlChannelHello(_, d) => d,
        Hello::DataChannelHello(_, d) => d,
    };
    let b = match value {
        Hello::ControlChannelHello(_, d) => d,
        Hello::DataChannelHello(_, d) => d,
    };
    assert(hello.encoding().subrange(5, 37) =~= a@);
    assert(value.encoding().subrange(5, 37) =~= b@);
    lemma_same_digest(a, b);
    assert(value.encoding()[4] == value.version());
    assert(hello.encoding()[4] == hello.version());
}

/// A reader of hellos never asks for bytes past the end of the message.
pub proof fn law_hello_is_not_overread(
    hello: Hello,
    k: int,
    r: Result<Parsed<Hello>, ProtocolError>,
)
    requires
        0 <= k < hello.encoding().len(),
        hello_outcome(hello.encoding().take(k), r),
    ensures
        r matches Ok(Parsed::NeedMore(n)) && 0 < n && k + n <= hello.encoding().len(),
{
}

/// The first four bytes of an encoding that begins with a tag are the tag.
proof fn lemma_tag_first(tag: u32, s: Seq<u8>)
    requires
        s.len() >= 4,
        s[0] == wire::u32_le(tag)[0],
        s[1] == wire::u32_le(tag)[1],
        s[2] == wire::u32_le(tag)[2],
        s[3] == wire::u32_le(tag)[3],
    ensures
        s.subrange(0, 4) == wire::u32_le(tag),
        wire::u32_of(s.subrange(0, 4)) == tag,
{
    assert(s.subrange(0, 4) =~= wire::u32_le(tag));
    wire::lemma_u32_round_trip(tag);
}

/// An authentication that was written is read back, whatever follows it.
pub proof fn law_auth_round_trip(auth: Auth, rest: Seq<u8>, r: Result<Parsed<Auth>, ProtocolError>)
    requires
        auth_outcome(auth.encoding() + rest, r),
    ensures
        r matches Ok(Parsed::Done { value, used }) && value == auth && used
            == auth.encoding().len(),
{
    let s = auth.encoding() + rest;
    assert(s.subrange(0, 32) =~= auth.encoding());
    lemma_same_digest(auth.0, r->Ok_0->value.0);
}

/// A verdict that was written is read back, whatever follows it.
pub proof fn law_ack_round_trip(ack: Ack, rest: Seq<u8>, r: Result<Parsed<Ack>, ProtocolError>)
    requires
        ack_outcome(ack.encoding() + rest, r),
    ensures
        r matches Ok(Parsed::Done { value, used }) && value == ack && used == ack.encoding().len(),
{
    let s = ack.encoding() + rest;
    lemma_tag_first(ack.tag(), s);
    wire::lemma_u32_round_trip(r->Ok_0->value.tag());
}

/// A reader of authentications never asks for bytes past the end of the message.
pub proof fn law_auth_is_not_overread(
    auth: Auth,
    k: int,
    r: Result<Parsed<Auth>, ProtocolError>,
)
    requires
        0 <= k < auth.encoding().len(),
        auth_outcome(auth.encoding().take(k), r),
    ensures
        r matches Ok(Parsed::NeedMore(n)) && 0 < n && k + n <= auth.encoding().len(),
{
}

/// A reader of verdicts never asks for bytes past the end of the message.
pub proof fn law_ack_is_not_overread(ack: Ack, k: int, r: Result<Parsed<Ack>, ProtocolError>)
    requires
        0 <= k < ack.encoding().len(),
        ack_outcome(ack.encoding().take(k), r),
    ensures
        r matches Ok(Parsed::NeedMore(n)) && 0 < n && k + n <= ack.encoding().len(),
{
}

impl ControlChannelCmd {
    pub open spec fn tag(self) -> u32 {
        match self {
            ControlChannelCmd::CreateDataChannel => 0,
            ControlChannelCmd::HeartBeat => 1,
            ControlChannelCmd::UpdateCompressionDict { .. } => 2,
        }
    }

    /// The two commands hold the same values.
    pub open spec fn same(self, other: ControlChannelCmd) -> bool {
        match self {
            ControlChannelCmd::UpdateCompressionDict { digest, dictionary } => other matches
                ControlChannelCmd::UpdateCompressionDict { digest: d, dictionary: b } && digest@
                == d@ && dictionary@ == b@,
            _ => self == other,
        }
    }

    /// The dictionary is no larger than a control channel carries.
    pub open spec fn fits(self) -> bool {
        self matches ControlChannelCmd::UpdateCompressionDict { digest, dictionary }
            ==> dictionary@.len() <= MAX_DICT_PUSH_BYTES
    }
}

/// A control command that was written is read back, whatever follows it, unless its
/// dictionary is larger than a control channel carries.
pub proof fn law_control_cmd_round_trip(
    cmd: ControlChannelCmd,
    rest: Seq<u8>,
    r: Result<Parsed<ControlChannelCmd>, ProtocolError>,
)
    requires
        cmd.fits(),
        control_outcome(cmd.encoding() + rest, r),
    ensures
        r matches Ok(Parsed::Done { value, used }) && value.same(cmd) && used
            == cmd.encoding().len(),
{
    let e = cmd.encoding();
    let s = e + rest;
    lemma_tag_first(cmd.tag(), s);
    assert(s.subrange(0, 4) =~= e.subrange(0, 4));
    if let ControlChannelCmd::UpdateCompressionDict { digest, dictionary } = cmd {
        let n = dictionary@.len() as u64;
        wire::lemma_u64_round_trip(n);
        assert(s.subrange(36, 44) =~= wire::u64_le(n));
        assert(s.subrange(0, 44 + n) =~= e);
    } else {
        assert(s.subrange(0, 4) =~= e);
    }
    let value = r->Ok_0->value;
    assert(value.encoding() == e);
    lemma_tag_first(value.tag(), value.encoding());
    assert(e.subrange(0, 4) == value.encoding().subrange(0, 4));
    if let ControlChannelCmd::UpdateCompressionDict { digest, dictionary } = cmd {
        if let ControlChannelCmd::UpdateCompressionDict { digest: d, dictionary: b } = value {
            assert(e.subrange(4, 36) =~= digest@);
            assert(value.encoding().subrange(4, 36) =~= d@);
            wire::lemma_u64_round_trip(dictionary@.len() as u64);
            wire::lemma_u64_round_trip(b@.len() as u64);
            assert(e.subrange(44, e.len() as int) =~= dictionary@);
            assert(e.subrange(44, e.len() as int) =~= b@);
        }
    }
}

/// A dictionary larger than a control channel carries is refused as soon as its length is
/// known, however much of it has been received.
pub proof fn law_oversized_dictionary_is_refused(
    cmd: ControlChannelCmd,
    received: int,
    r: Result<Parsed<ControlChannelCmd>, ProtocolError>,
)
    requires
        !cmd.fits(),
        44 <= received <= cmd.encoding().len(),
        control_outcome(cmd.encoding().take(received), r),
    ensures
        r == Err::<Parsed<ControlChannelCmd>, ProtocolError>(ProtocolError::DictionaryTooLarge),
{
    let s = cmd.encoding().take(received);
    let dictionary = cmd->dictionary;
    assert(dictionary@.len() == dictionary.len());
    let n = dictionary@.len() as u64;
    lemma_tag_first(cmd.tag(), s);
    wire::lemma_u64_round_trip(n);
    assert(s.subrange(36, 44) =~= wire::u64_le(n));
}

/// A reader of control commands never asks for bytes past the end of the
/// command.
pub proof fn law_control_cmd_is_not_overread(
    cmd: ControlChannelCmd,
    k: int,
    r: Result<Parsed<ControlChannelCmd>, ProtocolError>,
)
    requires
        cmd.fits(),
        0 <= k < cmd.encoding().len(),
        control_outcome(cmd.encoding().take(k), r),
    ensures
        r matches Ok(Parsed::NeedMore(n)) && 0 < n && k + n <= cmd.encoding().len(),
{
    let e = cmd.encoding();
    let s = e.take(k);
    if k >= 4 {
        lemma_tag_first(cmd.tag(), s);
        assert(cmd.tag() == 2);
        if k >= 44 {
            let dictionary = cmd->dictionary;
            let n = dictionary@.len() as u64;
            wire::lemma_u64_round_trip(n);
            assert(s.subrange(36, 44) =~= wire::u64_le(n));
        }
    }
}

impl DataChannelCmd {
    pub open spec fn tag(self) -> u32 {
        match self {
            DataChannelCmd::StartForwardTcp => 0,
            DataChannelCmd::StartForwardUdp => 1,
            DataChannelCmd::StartForwardTcpZstd { .. } => 2,
            DataChannelCmd::StartForwardUdpZstd { .. } => 3,
            DataChannelCmd::StartForwardTcpReuse => 4,
            DataChannelCmd::StartForwardTcpZstdReuse { .. } => 5,
        }
    }

    /// The digest that a command for compressed traffic carries.
    pub open spec fn digest(self) -> Option<Digest> {
        match self {
            DataChannelCmd::StartForwardTcpZstd { dict_digest } => Some(dict_digest),
            DataChannelCmd::StartForwardUdpZstd { dict_digest } => Some(dict_digest),
            DataChannelCmd::StartForwardTcpZstdReuse { dict_digest } => Some(dict_digest),
            _ => None,
        }
    }
}

/// A data command that was written is read back, whatever follows it.
pub proof fn law_data_cmd_round_trip(
    cmd: DataChannelCmd,
    rest: Seq<u8>,
    r: Result<Parsed<DataChannelCmd>, ProtocolError>,
)
    requires
        data_outcome(cmd.encoding() + rest, r),
    ensures
        r matches Ok(Parsed::Done { value, used }) && value == cmd && used == cmd.encoding().len(),
{
    let e = cmd.encoding();
    let s = e + rest;
    lemma_tag_first(cmd.tag(), s);
    if cmd.digest() is Some {
        assert(s.subrange(0, 36) =~= e);
    } else {
        assert(s.subrange(0, 4) =~= e);
    }
    let value = r->Ok_0->value;
    lemma_tag_first(value.tag(), value.encoding());
    lemma_tag_first(cmd.tag(), e);
    if cmd.digest() is Some {
        assert(e.subrange(4, 36) =~= cmd.digest()->0@);
        assert(e.subrange(4, 36) =~= value.digest()->0@);
        lemma_same_digest(cmd.digest()->0, value.digest()->0);
    }
}

/// A reader of data commands never asks for bytes past the end of the command.
pub proof fn law_data_cmd_is_not_overread(
    cmd: DataChannelCmd,
    k: int,
    r: Result<Parsed<DataChannelCmd>, ProtocolError>,
)
    requires
        0 <= k < cmd.encoding().len(),
        data_outcome(cmd.encoding().take(k), r),
    ensures
        r matches Ok(Parsed::NeedMore(n)) && 0 < n && k + n <= cmd.encoding().len(),
{
    if k >= 4 {
        lemma_tag_first(cmd.tag(), cmd.encoding().take(k));
    }
}

/// The address of a visitor.
#[allow(inconsistent_fields)]
#[derive(Debug, Clone, Copy, PartialEq, Eq)]
pub enum SocketAddr {
    V4 { ip: [u8; 4], port: u16 },
    V6 { ip: [u8; 16], port: u16 },
}

/// Whether two addresses are equal.
pub fn same_addr(a: &SocketAddr, b: &SocketAddr) -> (r: bool)
    ensures
        r == (*a == *b),
{
    match (a, b) {
        (SocketAddr::V4 { ip, port }, SocketAddr::V4 { ip: ip2, port: port2 }) => same_ip4(ip, ip2)
            && *port == *port2,
        (SocketAddr::V6 { ip, port }, SocketAddr::V6 { ip: ip2, port: port2 }) => same_ip6(ip, ip2)
            && *port == *port2,
        _ => false,
    }
}

fn same_ip4(a: &[u8; 4], b: &[u8; 4]) -> (r: bool)
    ensures
        r == (*a == *b),
{
    let mut i: usize = 0;
    while i < 4
        invariant
            i <= 4,
            forall|j: int| 0 <= j < i ==> a[j] == b[j],
        decreases 4 - i,
    {
        if a[i] != b[i] {
            return false;
        }
        i += 1;
    }
    proof {
        assert(*a =~= *b);
    }
    true
}

fn same_ip6(a: &[u8; 16], b: &[u8; 16]) -> (r: bool)
    ensures
        r == (*a == *b),
{
    let mut i: usize = 0;
    while i < 16
        invariant
            i <= 16,
            forall|j: int| 0 <= j < i ==> a[j] == b[j],
        decreases 16 - i,
    {
        if a[i] != b[i] {
            return false;
        }
        i += 1;
    }
    proof {
        assert(*a =~= *b);
    }
    true
}

/// Bytes of the header of a datagram, by the tag of its address.
pub open spec fn udp_header_len(tag: nat) -> int {
    if tag == 0 {
        12
    } else {
        24
    }
}

/// The header of a datagram of `len` bytes.
pub open spec fn udp_header(from: SocketAddr, len: u16) -> Seq<u8> {
    match from {
        SocketAddr::V4 { ip, port } => wire::u32_le(0) + ip@ + wire::u16_le(port) + wire::u16_le(
            len,
        ),
        SocketAddr::V6 { ip, port } => wire::u32_le(1) + ip@ + wire::u16_le(port) + wire::u16_le(
            len,
        ),
    }
}

/// A datagram on a data channel: the length of the header in one byte, the
/// header, the payload. The header holds the payload's length in 16 bits.
pub open spec fn udp_encoding(from: SocketAddr, data: Seq<u8>) -> Seq<u8> {
    let header = udp_header(from, (data.len() % 65536) as u16);
    seq![header.len() as u8] + header + data
}

/// Whether the bytes hold the header of a datagram; more may follow it.
pub open spec fn udp_header_valid(h: Seq<u8>) -> bool {
    h.len() >= 4 && wire::u32_of(h.subrange(0, 4)) <= 1 && h.len() >= udp_header_len(
        wire::u32_of(h.subrange(0, 4)),
    )
}

/// The length of the payload that a header announces.
pub open spec fn udp_payload_len(h: Seq<u8>) -> int {
    let end = udp_header_len(wire::u32_of(h.subrange(0, 4)));
    wire::u16_of(h.subrange(end - 2, end)) as int
}

/// What reading a datagram gives from the bytes `s` that follow the length
/// `hdr_len` of its header.
pub open spec fn udp_outcome(
    s: Seq<u8>,
    hdr_len: u8,
    r: Result<Parsed<UdpTraffic>, ProtocolError>,
) -> bool {
    let h = s.subrange(0, hdr_len as int);
    let len = udp_payload_len(h);
    if s.len() < hdr_len {
        needs(r, hdr_len - s.len())
    } else if !udp_header_valid(h) {
        r == Err::<Parsed<UdpTraffic>, ProtocolError>(ProtocolError::DeserializeUdpHeader)
    } else if s.len() < hdr_len + len {
        needs(r, hdr_len + len - s.len())
    } else {
        r matches Ok(Parsed::Done { value, used }) && used == hdr_len + len && udp_header(
            value.from,
            len as u16,
        ) == h.subrange(0, udp_header_len(wire::u32_of(h.subrange(0, 4))))
            && buffers::bytes_contents(value.data) == s.subrange(hdr_len as int, hdr_len + len)
    }
}

/// A datagram of a visitor, or for one.
#[derive(Debug)]
pub struct UdpTraffic {
    pub from: SocketAddr,
    pub data: bytes::Bytes,
}

impl UdpTraffic {
    /// A datagram with a copy of `data`.
    pub fn new(from: SocketAddr, data: &[u8]) -> (r: UdpTraffic)
        ensures
            r.from == from,
            buffers::bytes_contents(r.data) == data@,
    {
        UdpTraffic { from, data: buffers::bytes_copy_from_slice(data) }
    }

    /// The payload.
    pub fn payload(&self) -> (r: &[u8])
        ensures
            r@ == buffers::bytes_contents(self.data),
    {
        buffers::bytes_as_slice(&self.data)
    }

    /// The bytes to send for the datagram.
    pub fn write(&self) -> (r: Vec<u8>)
        ensures
            r@ == udp_encoding(self.from, buffers::bytes_contents(self.data)),
    {
        UdpTraffic::write_slice(self.from, buffers::bytes_as_slice(&self.data))
    }

    /// The bytes to send for a datagram with the payload `data`.
    pub fn write_slice(from: SocketAddr, data: &[u8]) -> (r: Vec<u8>)
        ensures
            r@ == udp_encoding(from, data@),
    {
        let len: u16 = (data.len() % 65536) as u16;
        let header = match from {
            SocketAddr::V4 { ip, port } => wire::serialize_v4_header(0, &ip, port, len),
            SocketAddr::V6 { ip, port } => wire::serialize_v6_header(1, &ip, port, len),
        };
        proof {
            assert(header@ == udp_header(from, len));
            assert(header@.len() == 12 || header@.len() == 24);
        }
        let mut out: Vec<u8> = Vec::new();
        out.push(header.len() as u8);
        out.extend_from_slice(header.as_slice());
        out.extend_from_slice(data);
        proof {
            assert(out@ =~= udp_encoding(from, data@));
        }
        out
    }

    /// Reads a datagram from the bytes received so far after the length
    /// `hdr_len` of its header.
    pub fn read(bytes: &[u8], hdr_len: u8) -> (r: Result<Parsed<UdpTraffic>, ProtocolError>)
        ensures
            udp_outcome(bytes@, hdr_len, r),
    {
        let n: usize = hdr_len as usize;
        if bytes.len() < n {
            return Ok(Parsed::NeedMore(n - bytes.len()));
        }
        let h = &bytes[0..n];
        let tag: u32 = match wire::deserialize_u32(h) {
            Some(v) => v,
            None => return Err(ProtocolError::DeserializeUdpHeader),
        };
        proof {
            wire::lemma_u32_of_le(h@.subrange(0, 4));
        }
        let (from, len) = if tag == 0 {
            match wire::deserialize_v4_header(h) {
                Some((_, ip, port, len)) => {
                    proof {
                        wire::lemma_u16_of_le(h@.subrange(8, 10));
                        wire::lemma_u16_of_le(h@.subrange(10, 12));
                        assert(udp_header(SocketAddr::V4 { ip, port }, len) =~= h@.subrange(0, 12));
                    }
                    (SocketAddr::V4 { ip, port }, len)
                },
                None => return Err(ProtocolError::DeserializeUdpHeader),
            }
        } else if tag == 1 {
            match wire::deserialize_v6_header(h) {
                Some((_, ip, port, len)) => {
                    proof {
                        wire::lemma_u16_of_le(h@.subrange(20, 22));
                        wire::lemma_u16_of_le(h@.subrange(22, 24));
                        assert(udp_header(SocketAddr::V6 { ip, port }, len) =~= h@.subrange(0, 24));
                    }
                    (SocketAddr::V6 { ip, port }, len)
                },
                None => return Err(ProtocolError::DeserializeUdpHeader),
            }
        } else {
            return Err(ProtocolError::DeserializeUdpHeader);
        };
        let end: usize = n + len as usize;
        if bytes.len() < end {
            return Ok(Parsed::NeedMore(end - bytes.len()));
        }
        let data = buffers::bytes_copy_from_slice(&bytes[n..end]);
        Ok(Parsed::Done { value: UdpTraffic { from, data }, used: end })
    }
}

/// A datagram that was written is read back, whatever follows it, as long as
/// the length of its payload fits in 16 bits.
pub proof fn law_udp_round_trip(
    from: SocketAddr,
    data: Seq<u8>,
    rest: Seq<u8>,
    r: Result<Parsed<UdpTraffic>, ProtocolError>,
)
    requires
        data.len() <= u16::MAX,
        udp_outcome(
            (udp_encoding(from, data) + rest).skip(1),
            (udp_encoding(from, data) + rest)[0],
            r,
        ),
    ensures
        r matches Ok(Parsed::Done { value, used }) && value.from == from
            && buffers::bytes_contents(value.data) == data && used + 1 == udp_encoding(
            from,
            data,
        ).len(),
{
    let e = udp_encoding(from, data);
    let len = data.len() as u16;
    let header = udp_header(from, len);
    let s = (e + rest).skip(1);
    let hdr_len = (e + rest)[0];
    lemma_udp_header_parses(from, len);
    assert(hdr_len == header.len());
    assert(s.subrange(0, hdr_len as int) =~= header);
    assert(s.subrange(hdr_len as int, hdr_len + len) =~= data);
    assert(header.subrange(0, header.len() as int) =~= header);
    lemma_udp_header_injective(from, r->Ok_0->value.from, len);
}

/// The header of a datagram says how long it is, and how long the payload is.
proof fn lemma_udp_header_parses(from: SocketAddr, len: u16)
    ensures
        udp_header_valid(udp_header(from, len)),
        udp_payload_len(udp_header(from, len)) == len,
        udp_header(from, len).len() == udp_header_len(
            wire::u32_of(udp_header(from, len).subrange(0, 4)),
        ),
{
    let h = udp_header(from, len);
    let tag: u32 = match from {
        SocketAddr::V4 { .. } => 0,
        SocketAddr::V6 { .. } => 1,
    };
    lemma_tag_first(tag, h);
    let end = udp_header_len(tag as nat);
    wire::lemma_u16_round_trip(len);
    assert(h.subrange(end - 2, end) =~= wire::u16_le(len));
}

/// A reader of datagrams never asks for bytes past the end of the datagram.
pub proof fn law_udp_is_not_overread(
    from: SocketAddr,
    data: Seq<u8>,
    k: int,
    r: Result<Parsed<UdpTraffic>, ProtocolError>,
)
    requires
        data.len() <= u16::MAX,
        1 <= k < udp_encoding(from, data).len(),
        udp_outcome(udp_encoding(from, data).take(k).skip(1), udp_encoding(from, data)[0], r),
    ensures
        r matches Ok(Parsed::NeedMore(n)) && 0 < n && k + n <= udp_encoding(from, data).len(),
{
    let e = udp_encoding(from, data);
    let len = data.len() as u16;
    let header = udp_header(from, len);
    let s = e.take(k).skip(1);
    let hdr_len = e[0];
    lemma_udp_header_parses(from, len);
    assert(hdr_len == header.len());
    if s.len() >= hdr_len {
        assert(s.subrange(0, hdr_len as int) =~= header);
    }
}

/// Equal headers come from equal addresses.
proof fn lemma_udp_header_injective(a: SocketAddr, b: SocketAddr, len: u16)
    requires
        udp_header(a, len) == udp_header(b, len),
    ensures
        a == b,
{
    let x = udp_header(a, len);
    let y = udp_header(b, len);
    lemma_tag_first(
        match a {
            SocketAddr::V4 { .. } => 0,
            SocketAddr::V6 { .. } => 1,
        },
        x,
    );
    lemma_tag_first(
        match b {
            SocketAddr::V4 { .. } => 0,
            SocketAddr::V6 { .. } => 1,
        },
        y,
    );
    match (a, b) {
        (SocketAddr::V4 { ip, port }, SocketAddr::V4 { ip: ip2, port: port2 }) => {
            assert(x.subrange(4, 8) =~= ip@);
            assert(y.subrange(4, 8) =~= ip2@);
            assert forall|i: int| 0 <= i < 4 implies ip[i] == ip2[i] by {
                assert(ip@[i] == ip2@[i]);
            }
            assert(ip =~= ip2);
            assert(x.subrange(8, 10) =~= wire::u16_le(port));
            assert(y.subrange(8, 10) =~= wire::u16_le(port2));
            wire::lemma_u16_round_trip(port);
            wire::lemma_u16_round_trip(port2);
        },
        (SocketAddr::V6 { ip, port }, SocketAddr::V6 { ip: ip2, port: port2 }) => {
            assert(x.subrange(4, 20) =~= ip@);
            assert(y.subrange(4, 20) =~= ip2@);
            assert forall|i: int| 0 <= i < 16 implies ip[i] == ip2[i] by {
                assert(ip@[i] == ip2@[i]);
            }
            assert(ip =~= ip2);
            assert(x.subrange(20, 22) =~= wire::u16_le(port));
            assert(y.subrange(20, 22) =~= wire::u16_le(port2));
            wire::lemma_u16_round_trip(port);
            wire::lemma_u16_round_trip(port2);
        },
        _ => {},
    }
}

/// Four bytes in little endian for a number that fits in one.
proof fn lemma_small_u32(n: u32)
    requires
        n < 256,
    ensures
        wire::u32_le(n) == seq![n as u8, 0, 0, 0],
{
    let s = wire::u32_le(n);
    assert(s =~= seq![n as u8, 0, 0, 0]);
}

/// The messages look on the wire as they always did, so that versions can be mixed: the number
/// of the kind in four bytes, the least significant one first, and then what the message holds.
pub proof fn law_messages_keep_their_numbers(
    hello: Hello,
    hello_bytes: Vec<u8>,
    auth: Auth,
    auth_bytes: Vec<u8>,
    ack: Ack,
    ack_bytes: Vec<u8>,
    data: DataChannelCmd,
    data_bytes: Vec<u8>,
)
    requires
        call_ensures(Hello::encode, (&hello,), hello_bytes),
        call_ensures(Auth::encode, (&auth,), auth_bytes),
        call_ensures(Ack::encode, (&ack,), ack_bytes),
        call_ensures(DataChannelCmd::encode, (&data,), data_bytes),
    ensures
        hello_bytes@ == (match hello {
            Hello::ControlChannelHello(v, d) => seq![0u8, 0, 0, 0, v] + d@,
            Hello::DataChannelHello(v, d) => seq![1u8, 0, 0, 0, v] + d@,
        }),
        auth_bytes@ == auth.0@,
        ack_bytes@ == (match ack {
            Ack::Accepted => seq![0u8, 0, 0, 0],
            Ack::ServiceNotExist => seq![1u8, 0, 0, 0],
            Ack::AuthFailed => seq![2u8, 0, 0, 0],
        }),
        data_bytes@ == (match data {
            DataChannelCmd::StartForwardTcp => seq![0u8, 0, 0, 0],
            DataChannelCmd::StartForwardUdp => seq![1u8, 0, 0, 0],
            DataChannelCmd::StartForwardTcpZstd { dict_digest } => seq![2u8, 0, 0, 0]
                + dict_digest@,
            DataChannelCmd::StartForwardUdpZstd { dict_digest } => seq![3u8, 0, 0, 0]
                + dict_digest@,
            DataChannelCmd::StartForwardTcpReuse => seq![4u8, 0, 0, 0],
            DataChannelCmd::StartForwardTcpZstdReuse { dict_digest } => seq![5u8, 0, 0, 0]
                + dict_digest@,
        }),
{
    lemma_small_u32(0);
    lemma_small_u32(1);
    lemma_small_u32(2);
    lemma_small_u32(3);
    lemma_small_u32(4);
    lemma_small_u32(5);
    match hello {
        Hello::ControlChannelHello(v, d) => {
            assert(wire::u32_le(0) + seq![v] + d@ =~= seq![0u8, 0, 0, 0, v] + d@);
        },
        Hello::DataChannelHello(v, d) => {
            assert(wire::u32_le(1) + seq![v] + d@ =~= seq![1u8, 0, 0, 0, v] + d@);
        },
    }
}

/// A command on a control channel has the number 0 where it asks for a data channel, 1 where it
/// is a heartbeat, and 2 where it carries a dictionary: then the digest, the length and the
/// bytes follow.
pub proof fn law_control_commands_keep_their_numbers(cmd: ControlChannelCmd, bytes: Vec<u8>)
    requires
        call_ensures(ControlChannelCmd::encode, (&cmd,), bytes),
    ensures
        match cmd {
            ControlChannelCmd::CreateDataChannel => bytes@ == seq![0u8, 0, 0, 0],
            ControlChannelCmd::HeartBeat => bytes@ == seq![1u8, 0, 0, 0],
            ControlChannelCmd::UpdateCompressionDict { digest, dictionary } => {
                &&& bytes@.len() == 44 + dictionary@.len()
                &&& bytes@.take(4) == seq![2u8, 0, 0, 0]
                &&& bytes@.subrange(4, 36) == digest@
                &&& bytes@.skip(44) == dictionary@
            },
        },
{
    lemma_small_u32(0);
    lemma_small_u32(1);
    lemma_small_u32(2);
    if let ControlChannelCmd::UpdateCompressionDict { digest, dictionary } = cmd {
        assert(wire::u64_le(dictionary@.len() as u64).len() == 8);
        assert(bytes@.take(4) =~= seq![2u8, 0, 0, 0]);
        assert(bytes@.subrange(4, 36) =~= digest@);
        assert(bytes@.skip(44) =~= dictionary@);
    }
}

} // verus!
