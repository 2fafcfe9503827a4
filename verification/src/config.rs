//! The configuration: its data, its defaults and its rules.
use crate::constants::{DEFAULT_KEEPALIVE_INTERVAL, DEFAULT_KEEPALIVE_SECS, DEFAULT_NODELAY};
use crate::protocol;
use crate::protocol::{Digest, MAX_DICT_PUSH_BYTES};
use crate::table::Table;
use crate::text;
use vstd::prelude::*;

verus! {

/// Application-layer heartbeat interval in secs
pub const DEFAULT_HEARTBEAT_INTERVAL_SECS: u64 = 30;

pub const DEFAULT_HEARTBEAT_TIMEOUT_SECS: u64 = 40;

/// Client
pub const DEFAULT_CLIENT_RETRY_INTERVAL_SECS: u64 = 1;

/// Idle data channels pre-opened per TCP/UDP service
pub const DEFAULT_TCP_POOL_SIZE: usize = 8;

pub const DEFAULT_UDP_POOL_SIZE: usize = 2;

pub const DEFAULT_COMPRESSION_SAMPLE_WINDOW: u64 = 134217728;

pub const DEFAULT_COMPRESSION_DICTIONARY_MAX_SIZE: u64 = 112640;

/// A training corpus is at least this many times as large as the dictionary.
pub const MIN_TRAIN_FACTOR: u64 = 100;

pub const MIN_COMPRESSION_LEVEL: i32 = 1;

pub const MAX_COMPRESSION_LEVEL: i32 = 22;

/// Finished data channels that wait for visitors
pub const DEFAULT_REUSE_MAX_IDLE: usize = 64;

/// A string that logs do not show.
#[derive(Default, PartialEq, Eq)]
pub struct MaskedString(String);

impl View for MaskedString {
    type V = Seq<char>;

    closed spec fn view(&self) -> Seq<char> {
        self.0@
    }
}

impl MaskedString {
    pub fn new(s: &str) -> (r: MaskedString)
        ensures
            r@ == s@,
    {
        MaskedString(s.to_owned())
    }

    pub fn as_str(&self) -> (r: &str)
        ensures
            r@ == self@,
    {
        self.0.as_str()
    }

    /// What logs show instead of the string.
    pub fn debug(&self) -> (r: String)
        ensures
            r@ == "MASKED"@,
    {
        "MASKED".to_owned()
    }

    pub fn same(&self, other: &MaskedString) -> (r: bool)
        ensures
            r == (self@ == other@),
    {
        self.0 == other.0
    }
}

impl Clone for MaskedString {
    fn clone(&self) -> (r: Self)
        ensures
            r@ == self@,
    {
        MaskedString(self.0.clone())
    }
}

/// Bytes that logs do not show.
#[derive(Default, PartialEq, Eq)]
pub struct MaskedBytes(Vec<u8>);

impl View for MaskedBytes {
    type V = Seq<u8>;

    closed spec fn view(&self) -> Seq<u8> {
        self.0@
    }
}

impl MaskedBytes {
    pub fn new(bytes: Vec<u8>) -> (r: MaskedBytes)
        ensures
            r@ == bytes@,
    {
        MaskedBytes(bytes)
    }

    pub fn as_slice(&self) -> (r: &[u8])
        ensures
            r@ == self@,
    {
        self.0.as_slice()
    }

    /// What logs show instead of the bytes.
    pub fn debug(&self) -> (r: String)
        ensures
            r@ == "MASKED("@ + text::decimal(self@.len()) + " bytes)"@,
    {
        let mut out = String::new();
        out.push_str("MASKED(");
        text::push_decimal(&mut out, self.0.len() as u64);
        out.push_str(" bytes)");
        proof {
            assert(out@ =~= "MASKED("@ + text::decimal(self@.len()) + " bytes)"@);
        }
        out
    }
}

impl Clone for MaskedBytes {
    fn clone(&self) -> (r: Self)
        ensures
            r@ == self@,
    {
        MaskedBytes(protocol::slice_to_vec(self.0.as_slice()))
    }
}

/// Whether two slices hold the same bytes.
pub fn same_bytes(a: &[u8], b: &[u8]) -> (r: bool)
    ensures
        r == (a@ == b@),
{
    if a.len() != b.len() {
        return false;
    }
    let mut i: usize = 0;
    while i < a.len()
        invariant
            i <= a@.len(),
            a@.len() == b@.len(),
            forall|j: int| 0 <= j < i ==> a@[j] == b@[j],
        decreases a@.len() - i,
    {
        if a[i] != b[i] {
            proof {
                assert(a@[i as int] != b@[i as int]);
            }
            return false;
        }
        i += 1;
    }
    proof {
        assert(a@ =~= b@);
    }
    true
}

/// A dictionary: its bytes and their digest.
pub struct DictionaryView {
    pub bytes: Seq<u8>,
    pub digest: Seq<u8>,
}

/// A compression dictionary and its digest.
#[derive(Default, PartialEq, Eq)]
pub struct LoadedDictionary {
    pub bytes: MaskedBytes,
    pub digest: Digest,
}

impl View for LoadedDictionary {
    type V = DictionaryView;

    open spec fn view(&self) -> DictionaryView {
        DictionaryView { bytes: self.bytes@, digest: self.digest@ }
    }
}

/// The dictionary that consists of `bytes`.
pub open spec fn dictionary_of(bytes: Seq<u8>) -> DictionaryView {
    DictionaryView { bytes, digest: protocol::sha256(bytes) }
}

impl LoadedDictionary {
    pub fn from_bytes(bytes: Vec<u8>) -> (r: Self)
        ensures
            r@ == dictionary_of(bytes@),
    {
        let digest = protocol::digest(bytes.as_slice());
        LoadedDictionary { bytes: MaskedBytes(bytes), digest }
    }

    pub fn same(&self, other: &LoadedDictionary) -> (r: bool)
        ensures
            r == (self@ == other@),
    {
        same_bytes(self.bytes.as_slice(), other.bytes.as_slice()) && protocol::same_digest(
            &self.digest,
            &other.digest,
        )
    }
}

impl Clone for LoadedDictionary {
    fn clone(&self) -> (r: Self)
        ensures
            r@ == self@,
    {
        LoadedDictionary { bytes: self.bytes.clone(), digest: self.digest }
    }
}

/// The texts of a list of strings.
pub open spec fn texts(list: Seq<String>) -> Seq<Seq<char>> {
    list.map_values(|s: String| s@)
}

/// The list without the entries that occurred before.
pub open spec fn first_occurrences(list: Seq<Seq<char>>) -> Seq<Seq<char>>
    decreases list.len(),
{
    if list.len() == 0 {
        list
    } else {
        let before = first_occurrences(list.drop_last());
        if before.contains(list.last()) {
            before
        } else {
            before.push(list.last())
        }
    }
}

/// One or more server addresses. A configuration file holds a string or an array of
/// strings.
#[derive(Debug, Default, PartialEq, Eq)]
pub struct RemoteAddrList(Vec<String>);

impl View for RemoteAddrList {
    type V = Seq<Seq<char>>;

    closed spec fn view(&self) -> Seq<Seq<char>> {
        texts(self.0@)
    }
}

impl RemoteAddrList {
    pub fn new(addrs: Vec<String>) -> (r: Self)
        ensures
            r@ == texts(addrs@),
    {
        RemoteAddrList(addrs)
    }

    pub fn as_slice(&self) -> (r: &[String])
        ensures
            texts(r@) == self@,
    {
        self.0.as_slice()
    }

    /// Drops repeated addresses, the first of each stays. A list that is refused is emptied.
    pub fn normalize(&mut self) -> (r: Result<(), ConfigError>)
        ensures
            r is Ok ==> final(self)@ == first_occurrences(old(self)@),
            r is Err ==> final(self)@.len() == 0,
            match r {
                Ok(()) => old(self)@.len() > 0 && forall|i: int|
                    0 <= i < old(self)@.len() ==> (#[trigger] old(self)@[i]).len() > 0,
                Err(e) => e@ == (if old(self)@.len() == 0 {
                    ConfigFault::NoAddress
                } else {
                    ConfigFault::EmptyAddress
                }) && (old(self)@.len() > 0 ==> exists|i: int|
                    0 <= i < old(self)@.len() && (#[trigger] old(self)@[i]).len() == 0),
            },
    {
        let mut normalized: Vec<String> = Vec::new();
        let mut i: usize = 0;
        while i < self.0.len()
            invariant
                *self == *old(self),
                i <= self.0@.len(),
                forall|j: int| 0 <= j < i ==> (#[trigger] old(self)@[j]).len() > 0,
                texts(normalized@) == first_occurrences(old(self)@.take(i as int)),
                i > 0 ==> normalized@.len() > 0,
            decreases self.0@.len() - i,
        {
            let addr = &self.0[i];
            if addr.as_str().is_empty() {
                proof {
                    assert(old(self)@[i as int].len() == 0);
                }
                self.0 = Vec::new();
                return Err(ConfigError::EmptyAddress);
            }
            let ghost next = old(self)@.take(i + 1);
            proof {
                assert(next.drop_last() =~= old(self)@.take(i as int));
                assert(next.last() == addr@);
            }
            if !contains_text(normalized.as_slice(), addr.as_str()) {
                let ghost was = normalized@;
                normalized.push(addr.clone());
                proof {
                    assert(texts(normalized@) =~= texts(was).push(addr@));
                }
            }
            i += 1;
        }
        if normalized.len() == 0 {
            return Err(ConfigError::NoAddress);
        }
        proof {
            assert(old(self)@.take(old(self)@.len() as int) =~= old(self)@);
        }
        self.0 = normalized;
        Ok(())
    }
}

/// Whether a list of strings holds the text.
pub fn contains_text(list: &[String], s: &str) -> (r: bool)
    ensures
        r == texts(list@).contains(s@),
{
    let key = s.to_owned();
    let mut i: usize = 0;
    while i < list.len()
        invariant
            i <= list@.len(),
            key@ == s@,
            forall|j: int| 0 <= j < i ==> texts(list@)[j] != s@,
        decreases list@.len() - i,
    {
        if list[i] == key {
            proof {
                assert(texts(list@)[i as int] == s@);
            }
            return true;
        }
        i += 1;
    }
    false
}

#[derive(Debug, Copy, Clone, PartialEq, Eq, Default, Structural)]
pub enum TransportType {
    #[default]
    Tcp,
    Tls,
    Noise,
    Websocket,
}

#[derive(Debug, Copy, Clone, PartialEq, Eq, Structural)]
pub enum CompressionType {
    Zstd,
}

#[derive(Debug, Clone, Copy, PartialEq, Eq, Default, Structural)]
pub enum ServiceType {
    #[default]
    Tcp,
    Udp,
}

pub fn default_service_type() -> (r: ServiceType)
    ensures
        r == ServiceType::Tcp,
{
    ServiceType::Tcp
}

/// Why the configuration of a service is refused.
#[derive(Debug, Clone, Copy, PartialEq, Eq, Structural)]
pub enum ServiceFault {
    TokenNotSet,
    AutoDictionaryNeedsCompression,
    SampleWindowNeedsCompression,
    DictionaryMaxSizeNeedsCompression,
    LevelNeedsCompression,
    DictionaryNeedsCompression,
    LevelOutOfRange,
    DictionaryMaxSizeTooLarge,
    SampleWindowTooSmall,
    ReuseNeedsTcp,
    MaxIdleNeedsReuse,
}

/// Why a configuration is refused.
pub enum ConfigFault {
    Service(Seq<char>, ServiceFault),
    /// The file that holds a dictionary cannot be read.
    UnreadableDictionary(Seq<char>),
    EmptyAddress,
    NoAddress,
    UnknownProxyScheme(Seq<char>),
    MissingTls,
    MissingPkcs12,
    MissingWebsocket,
    /// Neither a server nor a client is configured.
    NoRole,
}

/// Why a configuration is refused.
#[derive(Debug, PartialEq, Eq)]
pub enum ConfigError {
    Service { name: String, fault: ServiceFault },
    UnreadableDictionary { path: String },
    EmptyAddress,
    NoAddress,
    UnknownProxyScheme { scheme: String },
    MissingTls,
    MissingPkcs12,
    MissingWebsocket,
    NoRole,
}

impl View for ConfigError {
    type V = ConfigFault;

    open spec fn view(&self) -> ConfigFault {
        match self {
            ConfigError::Service { name, fault } => ConfigFault::Service(name@, *fault),
            ConfigError::UnreadableDictionary { path } => ConfigFault::UnreadableDictionary(path@),
            ConfigError::EmptyAddress => ConfigFault::EmptyAddress,
            ConfigError::NoAddress => ConfigFault::NoAddress,
            ConfigError::UnknownProxyScheme { scheme } => ConfigFault::UnknownProxyScheme(scheme@),
            ConfigError::MissingTls => ConfigFault::MissingTls,
            ConfigError::MissingPkcs12 => ConfigFault::MissingPkcs12,
            ConfigError::MissingWebsocket => ConfigFault::MissingWebsocket,
            ConfigError::NoRole => ConfigFault::NoRole,
        }
    }
}

/// What the fault of a service says, behind its name.
pub open spec fn service_fault_text(fault: ServiceFault) -> Seq<char> {
    match fault {
        ServiceFault::TokenNotSet => " is not set"@,
        ServiceFault::AutoDictionaryNeedsCompression =>
        ": `compression_auto_dictionary` requires `compression = \"zstd\"` to be set"@,
        ServiceFault::SampleWindowNeedsCompression =>
        ": `compression_sample_window` requires `compression = \"zstd\"` to be set"@,
        ServiceFault::DictionaryMaxSizeNeedsCompression =>
        ": `compression_dictionary_max_size` requires `compression = \"zstd\"` to be set"@,
        ServiceFault::LevelNeedsCompression =>
        ": `compression_level` requires `compression = \"zstd\"` to be set"@,
        ServiceFault::DictionaryNeedsCompression =>
        ": `compression_dictionary` requires `compression = \"zstd\"` to be set"@,
        ServiceFault::LevelOutOfRange => ": `compression_level` must be between 1 and 22"@,
        ServiceFault::DictionaryMaxSizeTooLarge =>
        ": `compression_dictionary_max_size` must not exceed 16777216 bytes"@,
        ServiceFault::SampleWindowTooSmall =>
        ": `compression_sample_window` must be at least 100 times `compression_dictionary_max_size`"@,
        ServiceFault::ReuseNeedsTcp => ": `connection_reuse` is only supported for `type = \"tcp\"`"@,
        ServiceFault::MaxIdleNeedsReuse =>
        ": `connection_reuse_max_idle` requires `connection_reuse = true` to be set"@,
    }
}

/// What stands before the name of the service.
pub open spec fn service_fault_prefix(fault: ServiceFault) -> Seq<char> {
    if fault == ServiceFault::TokenNotSet {
        "The token of service "@
    } else {
        "Service "@
    }
}

/// What the fault says.
pub open spec fn fault_text(fault: ConfigFault) -> Seq<char> {
    match fault {
        ConfigFault::Service(name, fault) => service_fault_prefix(fault) + name
            + service_fault_text(fault),
        ConfigFault::UnreadableDictionary(path) => "Failed to read compression dictionary at "@
            + path,
        ConfigFault::EmptyAddress => "`client.remote_addr` contains an empty address"@,
        ConfigFault::NoAddress => "`client.remote_addr` must not be empty"@,
        ConfigFault::UnknownProxyScheme(scheme) => "Unknown proxy scheme: "@ + scheme,
        ConfigFault::MissingTls => "Missing TLS configuration"@,
        ConfigFault::MissingPkcs12 => "Missing `pkcs12` or `pkcs12_password`"@,
        ConfigFault::MissingWebsocket => "Missing websocket configuration"@,
        ConfigFault::NoRole => "Neither of `[server]` or `[client]` is defined"@,
    }
}

impl ConfigError {
    /// What the error says.
    pub fn message(&self) -> (r: String)
        ensures
            r@ == fault_text(self@),
    {
        let mut out = String::new();
        match self {
            ConfigError::Service { name, fault } => {
                out.push_str(
                    match fault {
                        ServiceFault::TokenNotSet => "The token of service ",
                        _ => "Service ",
                    },
                );
                out.push_str(name.as_str());
                out.push_str(
                    match fault {
                        ServiceFault::TokenNotSet => " is not set",
                        ServiceFault::AutoDictionaryNeedsCompression =>
                        ": `compression_auto_dictionary` requires `compression = \"zstd\"` to be set",
                        ServiceFault::SampleWindowNeedsCompression =>
                        ": `compression_sample_window` requires `compression = \"zstd\"` to be set",
                        ServiceFault::DictionaryMaxSizeNeedsCompression =>
                        ": `compression_dictionary_max_size` requires `compression = \"zstd\"` to be set",
                        ServiceFault::LevelNeedsCompression =>
                        ": `compression_level` requires `compression = \"zstd\"` to be set",
                        ServiceFault::DictionaryNeedsCompression =>
                        ": `compression_dictionary` requires `compression = \"zstd\"` to be set",
                        ServiceFault::LevelOutOfRange =>
                        ": `compression_level` must be between 1 and 22",
                        ServiceFault::DictionaryMaxSizeTooLarge =>
                        ": `compression_dictionary_max_size` must not exceed 16777216 bytes",
                        ServiceFault::SampleWindowTooSmall =>
                        ": `compression_sample_window` must be at least 100 times `compression_dictionary_max_size`",
                        ServiceFault::ReuseNeedsTcp =>
                        ": `connection_reuse` is only supported for `type = \"tcp\"`",
                        ServiceFault::MaxIdleNeedsReuse =>
                        ": `connection_reuse_max_idle` requires `connection_reuse = true` to be set",
                    },
                );
            },
            ConfigError::UnreadableDictionary { path } => {
                out.push_str("Failed to read compression dictionary at ");
                out.push_str(path.as_str());
            },
            ConfigError::EmptyAddress => {
                out.push_str("`client.remote_addr` contains an empty address");
            },
            ConfigError::NoAddress => {
                out.push_str("`client.remote_addr` must not be empty");
            },
            ConfigError::UnknownProxyScheme { scheme } => {
                out.push_str("Unknown proxy scheme: ");
                out.push_str(scheme.as_str());
            },
            ConfigError::MissingTls => {
                out.push_str("Missing TLS configuration");
            },
            ConfigError::MissingPkcs12 => {
                out.push_str("Missing `pkcs12` or `pkcs12_password`");
            },
            ConfigError::MissingWebsocket => {
                out.push_str("Missing websocket configuration");
            },
            ConfigError::NoRole => {
                out.push_str("Neither of `[server]` or `[client]` is defined");
            },
        }
        proof {
            assert(out@ =~= fault_text(self@));
        }
        out
    }
}

/// The text of an optional string.
pub open spec fn opt_text(o: Option<String>) -> Option<Seq<char>> {
    match o {
        Some(s) => Some(s@),
        None => None,
    }
}

/// The text of an optional masked string.
pub open spec fn opt_secret(o: Option<MaskedString>) -> Option<Seq<char>> {
    match o {
        Some(s) => Some(s@),
        None => None,
    }
}

/// The view of an optional dictionary.
pub open spec fn opt_dictionary(o: Option<LoadedDictionary>) -> Option<DictionaryView> {
    match o {
        Some(d) => Some(d@),
        None => None,
    }
}

fn clone_text(o: &Option<String>) -> (r: Option<String>)
    ensures
        opt_text(r) == opt_text(*o),
{
    match o {
        Some(s) => Some(s.clone()),
        None => None,
    }
}

fn clone_secret(o: &Option<MaskedString>) -> (r: Option<MaskedString>)
    ensures
        opt_secret(r) == opt_secret(*o),
{
    match o {
        Some(s) => Some(s.clone()),
        None => None,
    }
}

/// A copy of an optional dictionary.
pub fn clone_dictionary(o: &Option<LoadedDictionary>) -> (r: Option<LoadedDictionary>)
    ensures
        opt_dictionary(r) == opt_dictionary(*o),
{
    match o {
        Some(d) => Some(d.clone()),
        None => None,
    }
}

fn same_text(a: &Option<String>, b: &Option<String>) -> (r: bool)
    ensures
        r == (opt_text(*a) == opt_text(*b)),
{
    match (a, b) {
        (Some(x), Some(y)) => *x == *y,
        (None, None) => true,
        _ => false,
    }
}

fn same_secret(a: &Option<MaskedString>, b: &Option<MaskedString>) -> (r: bool)
    ensures
        r == (opt_secret(*a) == opt_secret(*b)),
{
    match (a, b) {
        (Some(x), Some(y)) => x.same(y),
        (None, None) => true,
        _ => false,
    }
}

fn same_dictionary(a: &Option<LoadedDictionary>, b: &Option<LoadedDictionary>) -> (r: bool)
    ensures
        r == (opt_dictionary(*a) == opt_dictionary(*b)),
{
    match (a, b) {
        (Some(x), Some(y)) => x.same(y),
        (None, None) => true,
        _ => false,
    }
}

fn same_bool(a: Option<bool>, b: Option<bool>) -> (r: bool)
    ensures
        r == (a == b),
{
    match (a, b) {
        (Some(x), Some(y)) => x == y,
        (None, None) => true,
        _ => false,
    }
}

fn same_u64(a: Option<u64>, b: Option<u64>) -> (r: bool)
    ensures
        r == (a == b),
{
    match (a, b) {
        (Some(x), Some(y)) => x == y,
        (None, None) => true,
        _ => false,
    }
}

fn same_usize(a: Option<usize>, b: Option<usize>) -> (r: bool)
    ensures
        r == (a == b),
{
    match (a, b) {
        (Some(x), Some(y)) => x == y,
        (None, None) => true,
        _ => false,
    }
}

fn same_level(a: Option<i32>, b: Option<i32>) -> (r: bool)
    ensures
        r == (a == b),
{
    match (a, b) {
        (Some(x), Some(y)) => x == y,
        (None, None) => true,
        _ => false,
    }
}

fn same_compression(a: Option<CompressionType>, b: Option<CompressionType>) -> (r: bool)
    ensures
        r == (a == b),
{
    match (a, b) {
        (Some(x), Some(y)) => x == y,
        (None, None) => true,
        _ => false,
    }
}

/// A service of a server, by its values.
pub struct ServerServiceView {
    pub service_type: ServiceType,
    pub name: Seq<char>,
    pub bind_addr: Seq<char>,
    pub token: Option<Seq<char>>,
    pub nodelay: Option<bool>,
    pub compression: Option<CompressionType>,
    pub compression_level: Option<i32>,
    pub compression_dictionary: Option<Seq<char>>,
    pub compression_auto_dictionary: Option<bool>,
    pub compression_sample_window: Option<u64>,
    pub compression_dictionary_max_size: Option<u64>,
    pub connection_reuse: bool,
    pub connection_reuse_max_idle: Option<usize>,
    pub compression_dictionary_loaded: Option<DictionaryView>,
}

/// Per service config
/// All Option are optional in configuration but must be Some value in runtime
#[derive(Default, PartialEq, Eq)]
pub struct ServerServiceConfig {
    pub service_type: ServiceType,
    pub name: String,
    pub bind_addr: String,
    pub token: Option<MaskedString>,
    pub nodelay: Option<bool>,
    pub compression: Option<CompressionType>,
    pub compression_level: Option<i32>,
    pub compression_dictionary: Option<String>,
    pub compression_auto_dictionary: Option<bool>,
    pub compression_sample_window: Option<u64>,
    pub compression_dictionary_max_size: Option<u64>,
    pub connection_reuse: bool,
    pub connection_reuse_max_idle: Option<usize>,
    pub compression_dictionary_loaded: Option<LoadedDictionary>,
}

impl View for ServerServiceConfig {
    type V = ServerServiceView;

    open spec fn view(&self) -> ServerServiceView {
        ServerServiceView {
            service_type: self.service_type,
            name: self.name@,
            bind_addr: self.bind_addr@,
            token: opt_secret(self.token),
            nodelay: self.nodelay,
            compression: self.compression,
            compression_level: self.compression_level,
            compression_dictionary: opt_text(self.compression_dictionary),
            compression_auto_dictionary: self.compression_auto_dictionary,
            compression_sample_window: self.compression_sample_window,
            compression_dictionary_max_size: self.compression_dictionary_max_size,
            connection_reuse: self.connection_reuse,
            connection_reuse_max_idle: self.connection_reuse_max_idle,
            compression_dictionary_loaded: opt_dictionary(self.compression_dictionary_loaded),
        }
    }
}

impl ServerServiceConfig {
    pub fn with_name(name: &str) -> (r: ServerServiceConfig)
        ensures
            r@ == (ServerServiceView {
                service_type: ServiceType::Tcp,
                name: name@,
                bind_addr: Seq::empty(),
                token: None,
                nodelay: None,
                compression: None,
                compression_level: None,
                compression_dictionary: None,
                compression_auto_dictionary: None,
                compression_sample_window: None,
                compression_dictionary_max_size: None,
                connection_reuse: false,
                connection_reuse_max_idle: None,
                compression_dictionary_loaded: None,
            }),
    {
        ServerServiceConfig {
            service_type: ServiceType::Tcp,
            name: name.to_owned(),
            bind_addr: String::new(),
            token: None,
            nodelay: None,
            compression: None,
            compression_level: None,
            compression_dictionary: None,
            compression_auto_dictionary: None,
            compression_sample_window: None,
            compression_dictionary_max_size: None,
            connection_reuse: false,
            connection_reuse_max_idle: None,
            compression_dictionary_loaded: None,
        }
    }

    /// Whether two configurations hold the same values.
    pub fn same(&self, other: &ServerServiceConfig) -> (r: bool)
        ensures
            r == (self@ == other@),
    {
        self.service_type == other.service_type && self.name == other.name && self.bind_addr
            == other.bind_addr && same_secret(&self.token, &other.token) && same_bool(
            self.nodelay,
            other.nodelay,
        ) && same_compression(self.compression, other.compression) && same_level(
            self.compression_level,
            other.compression_level,
        ) && same_text(&self.compression_dictionary, &other.compression_dictionary) && same_bool(
            self.compression_auto_dictionary,
            other.compression_auto_dictionary,
        ) && same_u64(self.compression_sample_window, other.compression_sample_window) && same_u64(
            self.compression_dictionary_max_size,
            other.compression_dictionary_max_size,
        ) && self.connection_reuse == other.connection_reuse && same_usize(
            self.connection_reuse_max_idle,
            other.connection_reuse_max_idle,
        ) && same_dictionary(
            &self.compression_dictionary_loaded,
            &other.compression_dictionary_loaded,
        )
    }
}

impl Clone for ServerServiceConfig {
    fn clone(&self) -> (r: Self)
        ensures
            r@ == self@,
    {
        ServerServiceConfig {
            service_type: self.service_type,
            name: self.name.clone(),
            bind_addr: self.bind_addr.clone(),
            token: clone_secret(&self.token),
            nodelay: self.nodelay,
            compression: self.compression,
            compression_level: self.compression_level,
            compression_dictionary: clone_text(&self.compression_dictionary),
            compression_auto_dictionary: self.compression_auto_dictionary,
            compression_sample_window: self.compression_sample_window,
            compression_dictionary_max_size: self.compression_dictionary_max_size,
            connection_reuse: self.connection_reuse,
            connection_reuse_max_idle: self.connection_reuse_max_idle,
            compression_dictionary_loaded: clone_dictionary(&self.compression_dictionary_loaded),
        }
    }
}

/// A service of a client, by its values.
pub struct ClientServiceView {
    pub service_type: ServiceType,
    pub name: Seq<char>,
    pub local_addr: Seq<char>,
    pub prefer_ipv6: bool,
    pub token: Option<Seq<char>>,
    pub nodelay: Option<bool>,
    pub retry_interval: Option<u64>,
    pub compression_dictionary: Option<Seq<char>>,
    pub compression_dictionary_loaded: Option<DictionaryView>,
}

/// Per service config
/// All Option are optional in configuration but must be Some value in runtime
#[derive(Default, PartialEq, Eq)]
pub struct ClientServiceConfig {
    pub service_type: ServiceType,
    pub name: String,
    pub local_addr: String,
    pub prefer_ipv6: bool,
    pub token: Option<MaskedString>,
    pub nodelay: Option<bool>,
    pub retry_interval: Option<u64>,
    pub compression_dictionary: Option<String>,
    pub compression_dictionary_loaded: Option<LoadedDictionary>,
}

impl View for ClientServiceConfig {
    type V = ClientServiceView;

    open spec fn view(&self) -> ClientServiceView {
        ClientServiceView {
            service_type: self.service_type,
            name: self.name@,
            local_addr: self.local_addr@,
            prefer_ipv6: self.prefer_ipv6,
            token: opt_secret(self.token),
            nodelay: self.nodelay,
            retry_interval: self.retry_interval,
            compression_dictionary: opt_text(self.compression_dictionary),
            compression_dictionary_loaded: opt_dictionary(self.compression_dictionary_loaded),
        }
    }
}

impl ClientServiceConfig {
    pub fn with_name(name: &str) -> (r: ClientServiceConfig)
        ensures
            r@ == (ClientServiceView {
                service_type: ServiceType::Tcp,
                name: name@,
                local_addr: Seq::empty(),
                prefer_ipv6: false,
                token: None,
                nodelay: None,
                retry_interval: None,
                compression_dictionary: None,
                compression_dictionary_loaded: None,
            }),
    {
        ClientServiceConfig {
            service_type: ServiceType::Tcp,
            name: name.to_owned(),
            local_addr: String::new(),
            prefer_ipv6: false,
            token: None,
            nodelay: None,
            retry_interval: None,
            compression_dictionary: None,
            compression_dictionary_loaded: None,
        }
    }
}

impl Clone for ClientServiceConfig {
    fn clone(&self) -> (r: Self)
        ensures
            r@ == self@,
    {
        ClientServiceConfig {
            service_type: self.service_type,
            name: self.name.clone(),
            local_addr: self.local_addr.clone(),
            prefer_ipv6: self.prefer_ipv6,
            token: clone_secret(&self.token),
            nodelay: self.nodelay,
            retry_interval: self.retry_interval,
            compression_dictionary: clone_text(&self.compression_dictionary),
            compression_dictionary_loaded: clone_dictionary(&self.compression_dictionary_loaded),
        }
    }
}

#[derive(PartialEq, Eq, Default)]
pub struct TlsConfig {
    pub hostname: Option<String>,
    pub trusted_root: Option<String>,
    pub pkcs12: Option<String>,
    pub pkcs12_password: Option<MaskedString>,
}

pub fn default_noise_pattern() -> (r: String)
    ensures
        r@ == "Noise_NK_25519_ChaChaPoly_BLAKE2s"@,
{
    "Noise_NK_25519_ChaChaPoly_BLAKE2s".to_owned()
}

#[derive(PartialEq, Eq)]
pub struct NoiseConfig {
    pub pattern: String,
    pub local_private_key: Option<MaskedString>,
    pub remote_public_key: Option<String>,
}

pub fn default_websocket_path() -> (r: String)
    ensures
        r@ == "/"@,
{
    "/".to_owned()
}

#[derive(Debug, PartialEq, Eq)]
pub struct WebsocketConfig {
    pub tls: bool,
    pub path: String,
}

pub fn default_nodelay() -> (r: bool)
    ensures
        r == DEFAULT_NODELAY,
{
    DEFAULT_NODELAY
}

pub fn default_keepalive_secs() -> (r: u64)
    ensures
        r == DEFAULT_KEEPALIVE_SECS,
{
    DEFAULT_KEEPALIVE_SECS
}

pub fn default_keepalive_interval() -> (r: u64)
    ensures
        r == DEFAULT_KEEPALIVE_INTERVAL,
{
    DEFAULT_KEEPALIVE_INTERVAL
}

/// The address of a proxy: its scheme, and the whole of it.
#[derive(Debug, PartialEq, Eq)]
pub struct ProxyUrl {
    pub scheme: String,
    pub url: String,
}

#[derive(Debug, PartialEq, Eq)]
pub struct TcpConfig {
    pub nodelay: bool,
    pub keepalive_secs: u64,
    pub keepalive_interval: u64,
    pub proxy: Option<ProxyUrl>,
}

impl Default for TcpConfig {
    fn default() -> (r: Self)
        ensures
            r == (TcpConfig {
                nodelay: DEFAULT_NODELAY,
                keepalive_secs: DEFAULT_KEEPALIVE_SECS,
                keepalive_interval: DEFAULT_KEEPALIVE_INTERVAL,
                proxy: None,
            }),
    {
        TcpConfig {
            nodelay: default_nodelay(),
            keepalive_secs: default_keepalive_secs(),
            keepalive_interval: default_keepalive_interval(),
            proxy: None,
        }
    }
}

#[derive(PartialEq, Eq, Default)]
pub struct TransportConfig {
    pub transport_type: TransportType,
    pub tcp: TcpConfig,
    pub tls: Option<TlsConfig>,
    pub noise: Option<NoiseConfig>,
    pub websocket: Option<WebsocketConfig>,
}

pub fn default_heartbeat_timeout() -> (r: u64)
    ensures
        r == DEFAULT_HEARTBEAT_TIMEOUT_SECS,
{
    DEFAULT_HEARTBEAT_TIMEOUT_SECS
}

pub fn default_client_retry_interval() -> (r: u64)
    ensures
        r == DEFAULT_CLIENT_RETRY_INTERVAL_SECS,
{
    DEFAULT_CLIENT_RETRY_INTERVAL_SECS
}

/// The `[client]` block.
#[derive(Default)]
pub struct ClientConfig {
    pub remote_addr: RemoteAddrList,
    pub default_token: Option<MaskedString>,
    pub prefer_ipv6: Option<bool>,
    pub services: Table<String, ClientServiceConfig>,
    pub transport: TransportConfig,
    pub heartbeat_timeout: u64,
    pub retry_interval: u64,
}

pub fn default_heartbeat_interval() -> (r: u64)
    ensures
        r == DEFAULT_HEARTBEAT_INTERVAL_SECS,
{
    DEFAULT_HEARTBEAT_INTERVAL_SECS
}

pub fn default_tcp_pool_size() -> (r: usize)
    ensures
        r == DEFAULT_TCP_POOL_SIZE,
{
    DEFAULT_TCP_POOL_SIZE
}

pub fn default_udp_pool_size() -> (r: usize)
    ensures
        r == DEFAULT_UDP_POOL_SIZE,
{
    DEFAULT_UDP_POOL_SIZE
}

/// The `[server]` block.
#[derive(Default)]
pub struct ServerConfig {
    pub bind_addr: String,
    pub default_token: Option<MaskedString>,
    pub services: Table<String, ServerServiceConfig>,
    pub transport: TransportConfig,
    pub heartbeat_interval: u64,
    pub tcp_pool_size: usize,
    pub udp_pool_size: usize,
    pub observe_addr: Option<String>,
}

/// A configuration file.
pub struct Config {
    pub server: Option<ServerConfig>,
    pub client: Option<ClientConfig>,
}

/// What came of reading the dictionary files, by the path that the configuration gives:
/// the bytes of the file, or the path at which nothing could be read.
pub type DictionaryFiles = Table<String, Result<Vec<u8>, String>>;

/// The first rule that the configuration of a service breaks.
pub open spec fn service_fault(
    s: ServerServiceView,
    default_token: Option<Seq<char>>,
) -> Option<ServiceFault> {
    let window = match s.compression_sample_window {
        Some(n) => n,
        None => DEFAULT_COMPRESSION_SAMPLE_WINDOW,
    };
    let max_size = match s.compression_dictionary_max_size {
        Some(n) => n,
        None => DEFAULT_COMPRESSION_DICTIONARY_MAX_SIZE,
    };
    if s.token is None && default_token is None {
        Some(ServiceFault::TokenNotSet)
    } else if s.compression is None && s.compression_auto_dictionary is Some {
        Some(ServiceFault::AutoDictionaryNeedsCompression)
    } else if s.compression is None && s.compression_sample_window is Some {
        Some(ServiceFault::SampleWindowNeedsCompression)
    } else if s.compression is None && s.compression_dictionary_max_size is Some {
        Some(ServiceFault::DictionaryMaxSizeNeedsCompression)
    } else if s.compression is None && s.compression_level is Some {
        Some(ServiceFault::LevelNeedsCompression)
    } else if s.compression is None && s.compression_dictionary is Some {
        Some(ServiceFault::DictionaryNeedsCompression)
    } else if s.compression_level is Some && !(MIN_COMPRESSION_LEVEL <= s.compression_level->0
        <= MAX_COMPRESSION_LEVEL) {
        Some(ServiceFault::LevelOutOfRange)
    } else if s.compression_dictionary_max_size is Some && s.compression_dictionary_max_size->0
        > MAX_DICT_PUSH_BYTES {
        Some(ServiceFault::DictionaryMaxSizeTooLarge)
    } else if s.compression is Some && window < max_size * MIN_TRAIN_FACTOR {
        Some(ServiceFault::SampleWindowTooSmall)
    } else if s.connection_reuse && s.service_type == ServiceType::Udp {
        Some(ServiceFault::ReuseNeedsTcp)
    } else if s.connection_reuse_max_idle is Some && !s.connection_reuse {
        Some(ServiceFault::MaxIdleNeedsReuse)
    } else {
        None
    }
}

/// What loading the dictionary at `path` gives.
pub open spec fn loading(path: Seq<char>, files: DictionaryFiles) -> Result<
    DictionaryView,
    ConfigFault,
> {
    match files.lookup(path) {
        Some(Ok(bytes)) => Ok(dictionary_of(bytes@)),
        Some(Err(at)) => Err(ConfigFault::UnreadableDictionary(at@)),
        None => Err(ConfigFault::UnreadableDictionary(path)),
    }
}

/// Why the service `name` is refused.
pub open spec fn server_service_error(
    name: Seq<char>,
    s: ServerServiceView,
    default_token: Option<Seq<char>>,
    files: DictionaryFiles,
) -> Option<ConfigFault> {
    match service_fault(s, default_token) {
        Some(fault) => Some(ConfigFault::Service(name, fault)),
        None => match s.compression_dictionary {
            Some(path) => match loading(path, files) {
                Ok(_) => None,
                Err(fault) => Some(fault),
            },
            None => None,
        },
    }
}

/// A service that was refused: it has its name, and the default token where it has none.
pub open spec fn refused_server_service(
    name: Seq<char>,
    s: ServerServiceView,
    default_token: Option<Seq<char>>,
) -> ServerServiceView {
    ServerServiceView {
        name,
        token: if s.token is Some {
            s.token
        } else {
            default_token
        },
        ..s
    }
}

/// The service `name` with everything filled in that the configuration leaves open.
pub open spec fn validated_server_service(
    name: Seq<char>,
    s: ServerServiceView,
    default_token: Option<Seq<char>>,
    files: DictionaryFiles,
) -> ServerServiceView {
    ServerServiceView {
        name,
        token: if s.token is Some {
            s.token
        } else {
            default_token
        },
        compression_dictionary_loaded: match s.compression_dictionary {
            Some(path) => Some(loading(path, files)->Ok_0),
            None => s.compression_dictionary_loaded,
        },
        compression_auto_dictionary: if s.compression is None {
            s.compression_auto_dictionary
        } else if s.compression_dictionary is Some {
            Some(false)
        } else if s.compression_auto_dictionary is None {
            Some(true)
        } else {
            s.compression_auto_dictionary
        },
        compression_sample_window: if s.compression is Some && s.compression_sample_window is None {
            Some(DEFAULT_COMPRESSION_SAMPLE_WINDOW)
        } else {
            s.compression_sample_window
        },
        compression_dictionary_max_size: if s.compression is Some
            && s.compression_dictionary_max_size is None {
            Some(DEFAULT_COMPRESSION_DICTIONARY_MAX_SIZE)
        } else {
            s.compression_dictionary_max_size
        },
        connection_reuse_max_idle: if s.connection_reuse && s.connection_reuse_max_idle is None {
            Some(DEFAULT_REUSE_MAX_IDLE)
        } else {
            s.connection_reuse_max_idle
        },
        ..s
    }
}

fn check_service(s: &ServerServiceConfig, has_default_token: bool) -> (r: Option<ServiceFault>)
    ensures
        forall|default_token: Option<Seq<char>>|
            has_default_token == (default_token is Some) ==> r == #[trigger] service_fault(
                s@,
                default_token,
            ),
{
    if s.token.is_none() && !has_default_token {
        return Some(ServiceFault::TokenNotSet);
    }
    if s.compression_auto_dictionary.is_some() && s.compression.is_none() {
        return Some(ServiceFault::AutoDictionaryNeedsCompression);
    }
    if s.compression_sample_window.is_some() && s.compression.is_none() {
        return Some(ServiceFault::SampleWindowNeedsCompression);
    }
    if s.compression_dictionary_max_size.is_some() && s.compression.is_none() {
        return Some(ServiceFault::DictionaryMaxSizeNeedsCompression);
    }
    if s.compression_level.is_some() && s.compression.is_none() {
        return Some(ServiceFault::LevelNeedsCompression);
    }
    if s.compression_dictionary.is_some() && s.compression.is_none() {
        return Some(ServiceFault::DictionaryNeedsCompression);
    }
    if let Some(level) = s.compression_level {
        if level < MIN_COMPRESSION_LEVEL || level > MAX_COMPRESSION_LEVEL {
            return Some(ServiceFault::LevelOutOfRange);
        }
    }
    if let Some(max_size) = s.compression_dictionary_max_size {
        if max_size > MAX_DICT_PUSH_BYTES {
            return Some(ServiceFault::DictionaryMaxSizeTooLarge);
        }
    }
    if s.compression.is_some() {
        let sample_window: u64 = match s.compression_sample_window {
            Some(n) => n,
            None => DEFAULT_COMPRESSION_SAMPLE_WINDOW,
        };
        let dictionary_max_size: u64 = match s.compression_dictionary_max_size {
            Some(n) => n,
            None => DEFAULT_COMPRESSION_DICTIONARY_MAX_SIZE,
        };
        let minimum: u128 = dictionary_max_size as u128 * MIN_TRAIN_FACTOR as u128;
        if (sample_window as u128) < minimum {
            return Some(ServiceFault::SampleWindowTooSmall);
        }
    }
    if s.connection_reuse && s.service_type == ServiceType::Udp {
        return Some(ServiceFault::ReuseNeedsTcp);
    }
    if s.connection_reuse_max_idle.is_some() && !s.connection_reuse {
        return Some(ServiceFault::MaxIdleNeedsReuse);
    }
    None
}

/// Where the dictionary of a service lies.
#[derive(Debug, Clone, Copy, PartialEq, Eq, Structural)]
pub enum DictionaryPath {
    /// The path is used as it is.
    AsIs,
    /// The path is relative to the directory of the configuration file.
    UnderBase,
}

impl Config {
    /// How a dictionary path is resolved: an absolute path is used as it is, a relative one
    /// is taken from the directory of the configuration file, if that is known.
    pub fn resolve_compression_dictionary_path(is_absolute: bool, has_base: bool) -> (r:
        DictionaryPath)
        ensures
            r == (if !is_absolute && has_base {
                DictionaryPath::UnderBase
            } else {
                DictionaryPath::AsIs
            }),
    {
        if is_absolute {
            DictionaryPath::AsIs
        } else if has_base {
            DictionaryPath::UnderBase
        } else {
            DictionaryPath::AsIs
        }
    }

    /// Takes the dictionary at `path` from the files that were read.
    pub fn load_compression_dictionary(path: &String, files: &DictionaryFiles) -> (r: Result<
        LoadedDictionary,
        ConfigError,
    >)
        requires
            files.wf(),
        ensures
            match r {
                Ok(d) => loading(path@, *files) == Ok::<DictionaryView, ConfigFault>(d@),
                Err(e) => loading(path@, *files) == Err::<DictionaryView, ConfigFault>(e@),
            },
    {
        match files.get(path) {
            Some(Ok(bytes)) => Ok(
                LoadedDictionary::from_bytes(protocol::slice_to_vec(bytes.as_slice())),
            ),
            Some(Err(at)) => Err(ConfigError::UnreadableDictionary { path: at.clone() }),
            None => Err(ConfigError::UnreadableDictionary { path: path.clone() }),
        }
    }

    /// Checks a service of a server and fills in what its configuration leaves open. A
    /// service that is refused gets its name and its token alone.
    pub fn validate_server_service(
        name: &String,
        s: &mut ServerServiceConfig,
        default_token: &Option<MaskedString>,
        files: &DictionaryFiles,
    ) -> (r: Result<(), ConfigError>)
        requires
            files.wf(),
        ensures
            match r {
                Ok(()) => server_service_error(
                    name@,
                    old(s)@,
                    opt_secret(*default_token),
                    *files,
                ) is None && final(s)@ == validated_server_service(
                    name@,
                    old(s)@,
                    opt_secret(*default_token),
                    *files,
                ),
                Err(e) => server_service_error(
                    name@,
                    old(s)@,
                    opt_secret(*default_token),
                    *files,
                ) == Some(e@) && final(s)@ == refused_server_service(
                    name@,
                    old(s)@,
                    opt_secret(*default_token),
                ),
            },
    {
        let fault = check_service(s, default_token.is_some());
        proof {
            assert(service_fault(s@, opt_secret(*default_token)) == fault);
        }
        s.name = name.clone();
        if s.token.is_none() {
            s.token = clone_secret(default_token);
        }
        if let Some(fault) = fault {
            return Err(ConfigError::Service { name: name.clone(), fault });
        }
        let mut loaded: Option<LoadedDictionary> = None;
        if let Some(path) = &s.compression_dictionary {
            match Config::load_compression_dictionary(path, files) {
                Ok(d) => {
                    loaded = Some(d);
                },
                Err(e) => return Err(e),
            }
        }
        if loaded.is_some() {
            s.compression_dictionary_loaded = loaded;
        }
        if s.compression.is_some() {
            if s.compression_dictionary.is_some() {
                s.compression_auto_dictionary = Some(false);
            } else if s.compression_auto_dictionary.is_none() {
                s.compression_auto_dictionary = Some(true);
            }
            if s.compression_sample_window.is_none() {
                s.compression_sample_window = Some(DEFAULT_COMPRESSION_SAMPLE_WINDOW);
            }
            if s.compression_dictionary_max_size.is_none() {
                s.compression_dictionary_max_size = Some(DEFAULT_COMPRESSION_DICTIONARY_MAX_SIZE);
            }
        }
        if s.connection_reuse && s.connection_reuse_max_idle.is_none() {
            s.connection_reuse_max_idle = Some(DEFAULT_REUSE_MAX_IDLE);
        }
        Ok(())
    }
}

/// Why a transport is refused.
pub open spec fn transport_fault(config: TransportConfig, is_server: bool) -> Option<ConfigFault> {
    let unknown_scheme = config.tcp.proxy is Some && config.tcp.proxy->0.scheme@ != "socks5"@
        && config.tcp.proxy->0.scheme@ != "http"@;
    let needs_tls = match config.transport_type {
        TransportType::Tls => true,
        TransportType::Websocket => config.websocket is Some && config.websocket->0.tls
            && is_server,
        _ => false,
    };
    if unknown_scheme {
        Some(ConfigFault::UnknownProxyScheme(config.tcp.proxy->0.scheme@))
    } else if config.transport_type == TransportType::Websocket && config.websocket is None {
        Some(ConfigFault::MissingWebsocket)
    } else if needs_tls && config.tls is None {
        Some(ConfigFault::MissingTls)
    } else if needs_tls && is_server && (config.tls->0.pkcs12 is None
        || config.tls->0.pkcs12_password is None) {
        Some(ConfigFault::MissingPkcs12)
    } else {
        None
    }
}

fn check_pkcs12(tls: &Option<TlsConfig>) -> (r: Result<(), ConfigError>)
    ensures
        match r {
            Ok(()) => tls is Some && tls->0.pkcs12 is Some && tls->0.pkcs12_password is Some,
            Err(e) => if tls is None {
                e@ == ConfigFault::MissingTls
            } else {
                e@ == ConfigFault::MissingPkcs12 && (tls->0.pkcs12 is None
                    || tls->0.pkcs12_password is None)
            },
        },
{
    match tls {
        None => Err(ConfigError::MissingTls),
        Some(tls) => {
            if tls.pkcs12.is_none() || tls.pkcs12_password.is_none() {
                Err(ConfigError::MissingPkcs12)
            } else {
                Ok(())
            }
        },
    }
}

/// How many services stand before the first one, from `from` on, that is refused.
pub open spec fn accepted_server_services(
    entries: Seq<(String, ServerServiceConfig)>,
    from: int,
    default_token: Option<Seq<char>>,
    files: DictionaryFiles,
) -> int
    decreases entries.len() - from,
{
    if from >= entries.len() || server_service_error(
        entries[from].0@,
        entries[from].1@,
        default_token,
        files,
    ) is Some {
        from
    } else {
        accepted_server_services(entries, from + 1, default_token, files)
    }
}

/// The services before `k` are filled in, the one at `k` may be refused, the others are as
/// they were.
pub open spec fn server_services_filled(
    before: Seq<(String, ServerServiceConfig)>,
    after: Seq<(String, ServerServiceConfig)>,
    k: int,
    refused: bool,
    default_token: Option<Seq<char>>,
    files: DictionaryFiles,
) -> bool {
    &&& before.len() == after.len()
    &&& forall|i: int|
        0 <= i < before.len() ==> (#[trigger] after[i]).0 == before[i].0 && after[i].1@ == (if i
            < k {
            validated_server_service(before[i].0@, before[i].1@, default_token, files)
        } else if i == k && refused {
            refused_server_service(before[i].0@, before[i].1@, default_token)
        } else {
            before[i].1@
        })
}

/// How many services stand before the first one, from `from` on, that is refused.
pub open spec fn accepted_client_services(
    entries: Seq<(String, ClientServiceConfig)>,
    from: int,
    default_token: Option<Seq<char>>,
    files: DictionaryFiles,
) -> int
    decreases entries.len() - from,
{
    if from >= entries.len() || client_service_error(
        entries[from].0@,
        entries[from].1@,
        default_token,
        files,
    ) is Some {
        from
    } else {
        accepted_client_services(entries, from + 1, default_token, files)
    }
}

/// The services before `k` are filled in, the one at `k` may be refused, the others are as
/// they were.
pub open spec fn client_services_filled(
    before: Seq<(String, ClientServiceConfig)>,
    after: Seq<(String, ClientServiceConfig)>,
    k: int,
    refused: bool,
    default_token: Option<Seq<char>>,
    retry_interval: u64,
    files: DictionaryFiles,
) -> bool {
    &&& before.len() == after.len()
    &&& forall|i: int|
        0 <= i < before.len() ==> (#[trigger] after[i]).0 == before[i].0 && after[i].1@ == (if i
            < k {
            validated_client_service(
                before[i].0@,
                before[i].1@,
                default_token,
                retry_interval,
                files,
            )
        } else if i == k && refused {
            refused_client_service(before[i].0@, before[i].1@, default_token, retry_interval)
        } else {
            before[i].1@
        })
}

/// Why the service `name` is refused.
pub open spec fn client_service_error(
    name: Seq<char>,
    s: ClientServiceView,
    default_token: Option<Seq<char>>,
    files: DictionaryFiles,
) -> Option<ConfigFault> {
    if s.token is None && default_token is None {
        Some(ConfigFault::Service(name, ServiceFault::TokenNotSet))
    } else {
        match s.compression_dictionary {
            Some(path) => match loading(path, files) {
                Ok(_) => None,
                Err(fault) => Some(fault),
            },
            None => None,
        }
    }
}

/// A service that was refused: it has its name, and where there is a token for it, the
/// token and its retry interval.
pub open spec fn refused_client_service(
    name: Seq<char>,
    s: ClientServiceView,
    default_token: Option<Seq<char>>,
    retry_interval: u64,
) -> ClientServiceView {
    ClientServiceView {
        name,
        token: if s.token is Some {
            s.token
        } else {
            default_token
        },
        retry_interval: if s.retry_interval is Some || (s.token is None && default_token is None) {
            s.retry_interval
        } else {
            Some(retry_interval)
        },
        ..s
    }
}

/// The service `name` with everything filled in that the configuration leaves open.
pub open spec fn validated_client_service(
    name: Seq<char>,
    s: ClientServiceView,
    default_token: Option<Seq<char>>,
    retry_interval: u64,
    files: DictionaryFiles,
) -> ClientServiceView {
    ClientServiceView {
        name,
        token: if s.token is Some {
            s.token
        } else {
            default_token
        },
        retry_interval: if s.retry_interval is Some {
            s.retry_interval
        } else {
            Some(retry_interval)
        },
        compression_dictionary_loaded: match s.compression_dictionary {
            Some(path) => Some(loading(path, files)->Ok_0),
            None => s.compression_dictionary_loaded,
        },
        ..s
    }
}

/// Why the address list of a client is refused.
pub open spec fn addr_fault(addrs: Seq<Seq<char>>) -> Option<ConfigFault> {
    if addrs.len() == 0 {
        Some(ConfigFault::NoAddress)
    } else if exists|i: int| 0 <= i < addrs.len() && (#[trigger] addrs[i]).len() == 0 {
        Some(ConfigFault::EmptyAddress)
    } else {
        None
    }
}

/// Why a `[server]` block is refused.
pub open spec fn server_fault(config: ServerConfig, files: DictionaryFiles) -> Option<ConfigFault> {
    let token = opt_secret(config.default_token);
    let entries = config.services.entries();
    let k = accepted_server_services(entries, 0, token, files);
    if k < entries.len() {
        server_service_error(entries[k].0@, entries[k].1@, token, files)
    } else {
        transport_fault(config.transport, true)
    }
}

/// The `[server]` block `after` is `before` with its services filled in, up to the first
/// one that is refused.
pub open spec fn server_filled(
    before: ServerConfig,
    after: ServerConfig,
    files: DictionaryFiles,
) -> bool {
    let token = opt_secret(before.default_token);
    let entries = before.services.entries();
    &&& after.services.wf()
    &&& after.bind_addr == before.bind_addr
    &&& after.default_token == before.default_token
    &&& after.transport == before.transport
    &&& after.heartbeat_interval == before.heartbeat_interval
    &&& after.tcp_pool_size == before.tcp_pool_size
    &&& after.udp_pool_size == before.udp_pool_size
    &&& after.observe_addr == before.observe_addr
    &&& server_services_filled(
        entries,
        after.services.entries(),
        accepted_server_services(entries, 0, token, files),
        true,
        token,
        files,
    )
}

/// Why a `[client]` block is refused.
pub open spec fn client_fault(config: ClientConfig, files: DictionaryFiles) -> Option<ConfigFault> {
    let token = opt_secret(config.default_token);
    let entries = config.services.entries();
    let k = accepted_client_services(entries, 0, token, files);
    if addr_fault(config.remote_addr@) is Some {
        addr_fault(config.remote_addr@)
    } else if k < entries.len() {
        client_service_error(entries[k].0@, entries[k].1@, token, files)
    } else {
        transport_fault(config.transport, false)
    }
}

/// The `[client]` block `after` is `before` without repeated addresses and with its
/// services filled in, up to the first one that is refused.
pub open spec fn client_filled(
    before: ClientConfig,
    after: ClientConfig,
    files: DictionaryFiles,
) -> bool {
    let token = opt_secret(before.default_token);
    let entries = before.services.entries();
    let addrs_ok = addr_fault(before.remote_addr@) is None;
    &&& after.services.wf()
    &&& after.default_token == before.default_token
    &&& after.prefer_ipv6 == before.prefer_ipv6
    &&& after.transport == before.transport
    &&& after.heartbeat_timeout == before.heartbeat_timeout
    &&& after.retry_interval == before.retry_interval
    &&& after.remote_addr@ == (if addrs_ok {
        first_occurrences(before.remote_addr@)
    } else {
        Seq::empty()
    })
    &&& client_services_filled(
        entries,
        after.services.entries(),
        if addrs_ok {
            accepted_client_services(entries, 0, token, files)
        } else {
            0
        },
        addrs_ok,
        token,
        before.retry_interval,
        files,
    )
}

/// The warning for a service whose static dictionary overrules a request for an automatic
/// one.
pub fn static_dictionary_warning(name: &str, s: &ServerServiceConfig) -> (r: Option<String>)
    ensures
        r is Some <==> s.compression is Some && s.compression_dictionary is Some
            && s.compression_auto_dictionary == Some(true),
        r matches Some(text) ==> text@ == "Service "@ + name@
            + ": static `compression_dictionary` takes precedence; disabling `compression_auto_dictionary`"@,
{
    let requested = match s.compression_auto_dictionary {
        Some(requested) => requested,
        None => false,
    };
    if s.compression.is_some() && s.compression_dictionary.is_some() && requested {
        let mut out = String::new();
        out.push_str("Service ");
        out.push_str(name);
        out.push_str(
            ": static `compression_dictionary` takes precedence; disabling `compression_auto_dictionary`",
        );
        proof {
            assert(out@ =~= "Service "@ + name@
                + ": static `compression_dictionary` takes precedence; disabling `compression_auto_dictionary`"@);
        }
        Some(out)
    } else {
        None
    }
}

impl Config {
    /// Checks the transport of a server or a client.
    pub fn validate_transport_config(config: &TransportConfig, is_server: bool) -> (r: Result<
        (),
        ConfigError,
    >)
        ensures
            match r {
                Ok(()) => transport_fault(*config, is_server) is None,
                Err(e) => transport_fault(*config, is_server) == Some(e@),
            },
    {
        if let Some(proxy) = &config.tcp.proxy {
            if proxy.scheme != "socks5".to_owned() && proxy.scheme != "http".to_owned() {
                return Err(ConfigError::UnknownProxyScheme { scheme: proxy.scheme.clone() });
            }
        }
        match config.transport_type {
            TransportType::Tcp => Ok(()),
            TransportType::Tls => {
                if is_server {
                    return check_pkcs12(&config.tls);
                }
                if config.tls.is_none() {
                    return Err(ConfigError::MissingTls);
                }
                Ok(())
            },
            TransportType::Noise => Ok(()),
            TransportType::Websocket => {
                match &config.websocket {
                    None => Err(ConfigError::MissingWebsocket),
                    Some(websocket) => {
                        if websocket.tls && is_server {
                            return check_pkcs12(&config.tls);
                        }
                        Ok(())
                    },
                }
            },
        }
    }

    /// A transport is accepted exactly if it has what its type needs, and no proxy or one whose
    /// scheme is "socks5" or "http". A server that speaks TLS needs an archive and its password,
    /// a client only a TLS block, and with WebSocket in front not even that. The first thing
    /// that is missing is what the error names, and an unknown scheme comes first.
    pub proof fn law_the_verdict_on_a_transport(
        config: &TransportConfig,
        is_server: bool,
        r: Result<(), ConfigError>,
    )
        requires
            call_ensures(Config::validate_transport_config, (config, is_server), r),
        ensures
            ({
                let known = match config.tcp.proxy {
                    Some(proxy) => proxy.scheme@ == "socks5"@ || proxy.scheme@ == "http"@,
                    None => true,
                };
                let identity = match config.tls {
                    Some(tls) => tls.pkcs12 is Some && tls.pkcs12_password is Some,
                    None => false,
                };
                let complete = match config.transport_type {
                    TransportType::Tcp => true,
                    TransportType::Noise => true,
                    TransportType::Tls => if is_server {
                        identity
                    } else {
                        config.tls is Some
                    },
                    TransportType::Websocket => config.websocket matches Some(ws) && (!ws.tls
                        || !is_server || identity),
                };
                &&& r is Ok <==> known && complete
                &&& !known ==> (r matches Err(ConfigError::UnknownProxyScheme { scheme })
                    && scheme@ == config.tcp.proxy->0.scheme@)
                &&& known && !complete ==> r == Err::<(), ConfigError>(
                    if config.transport_type == TransportType::Websocket && config.websocket
                        is None {
                        ConfigError::MissingWebsocket
                    } else if config.tls is None {
                        ConfigError::MissingTls
                    } else {
                        ConfigError::MissingPkcs12
                    },
                )
            }),
    {
    }

    /// Checks a `[server]` block and fills in what it leaves open. `files` holds what came
    /// of reading the dictionaries that it names.
    pub fn validate_server_config(server: &mut ServerConfig, files: &DictionaryFiles) -> (r: Result<
        (),
        ConfigError,
    >)
        requires
            old(server).services.wf(),
            files.wf(),
        ensures
            match r {
                Ok(()) => server_fault(*old(server), *files) is None,
                Err(e) => server_fault(*old(server), *files) == Some(e@),
            },
            server_filled(*old(server), *final(server), *files),
    {
        let ghost before = server.services.entries();
        let ghost token = opt_secret(server.default_token);
        let mut i: usize = 0;
        while i < server.services.len()
            invariant
                files.wf(),
                before == old(server).services.entries(),
                token == opt_secret(old(server).default_token),
                i <= before.len(),
                before.len() == server.services.entries().len(),
                old(server).services.wf(),
                server.bind_addr == old(server).bind_addr,
                server.default_token == old(server).default_token,
                server.transport == old(server).transport,
                server.heartbeat_interval == old(server).heartbeat_interval,
                server.tcp_pool_size == old(server).tcp_pool_size,
                server.udp_pool_size == old(server).udp_pool_size,
                server.observe_addr == old(server).observe_addr,
                accepted_server_services(before, 0, token, *files) == accepted_server_services(
                    before,
                    i as int,
                    token,
                    *files,
                ),
                server_services_filled(
                    before,
                    server.services.entries(),
                    i as int,
                    false,
                    token,
                    *files,
                ),
            decreases before.len() - i,
        {
            let name = server.services.key_at(i).clone();
            let ghost prior = server.services.entries();
            let s = server.services.value_at_mut(i);
            let r = Config::validate_server_service(&name, s, &server.default_token, files);
            proof {
                let now = server.services.entries();
                assert(now[i as int].0 == prior[i as int].0);
                assert(forall|j: int|
                    0 <= j < now.len() && j != i ==> #[trigger] now[j] == prior[j]);
                assert(prior[i as int].0 == before[i as int].0);
            }
            if let Err(e) = r {
                proof {
                    lemma_same_keys(old(server).services, server.services);
                }
                return Err(e);
            }
            i += 1;
        }
        proof {
            lemma_same_keys(old(server).services, server.services);
        }
        Config::validate_transport_config(&server.transport, true)
    }

    /// Checks a service of a client and fills in what its configuration leaves open. A
    /// service that is refused gets its name, and what comes with its token.
    pub fn validate_client_service(
        name: &String,
        s: &mut ClientServiceConfig,
        default_token: &Option<MaskedString>,
        retry_interval: u64,
        files: &DictionaryFiles,
    ) -> (r: Result<(), ConfigError>)
        requires
            files.wf(),
        ensures
            match r {
                Ok(()) => client_service_error(
                    name@,
                    old(s)@,
                    opt_secret(*default_token),
                    *files,
                ) is None && final(s)@ == validated_client_service(
                    name@,
                    old(s)@,
                    opt_secret(*default_token),
                    retry_interval,
                    *files,
                ),
                Err(e) => client_service_error(
                    name@,
                    old(s)@,
                    opt_secret(*default_token),
                    *files,
                ) == Some(e@) && final(s)@ == refused_client_service(
                    name@,
                    old(s)@,
                    opt_secret(*default_token),
                    retry_interval,
                ),
            },
    {
        s.name = name.clone();
        if s.token.is_none() {
            s.token = clone_secret(default_token);
            if s.token.is_none() {
                return Err(
                    ConfigError::Service { name: name.clone(), fault: ServiceFault::TokenNotSet },
                );
            }
        }
        if s.retry_interval.is_none() {
            s.retry_interval = Some(retry_interval);
        }
        let mut loaded: Option<LoadedDictionary> = None;
        if let Some(path) = &s.compression_dictionary {
            match Config::load_compression_dictionary(path, files) {
                Ok(d) => {
                    loaded = Some(d);
                },
                Err(e) => return Err(e),
            }
        }
        if loaded.is_some() {
            s.compression_dictionary_loaded = loaded;
        }
        Ok(())
    }

    /// Checks a `[client]` block and fills in what it leaves open. `files` holds what came
    /// of reading the dictionaries that it names.
    pub fn validate_client_config(client: &mut ClientConfig, files: &DictionaryFiles) -> (r: Result<
        (),
        ConfigError,
    >)
        requires
            old(client).services.wf(),
            files.wf(),
        ensures
            match r {
                Ok(()) => client_fault(*old(client), *files) is None,
                Err(e) => client_fault(*old(client), *files) == Some(e@),
            },
            client_filled(*old(client), *final(client), *files),
    {
        if let Err(e) = client.remote_addr.normalize() {
            proof {
                assert(client.remote_addr@ =~= Seq::<Seq<char>>::empty());
            }
            return Err(e);
        }
        let ghost before = client.services.entries();
        let ghost token = opt_secret(client.default_token);
        let retry_interval: u64 = client.retry_interval;
        let mut i: usize = 0;
        while i < client.services.len()
            invariant
                files.wf(),
                before == old(client).services.entries(),
                token == opt_secret(old(client).default_token),
                retry_interval == old(client).retry_interval,
                i <= before.len(),
                before.len() == client.services.entries().len(),
                old(client).services.wf(),
                addr_fault(old(client).remote_addr@) is None,
                client.remote_addr@ == first_occurrences(old(client).remote_addr@),
                client.default_token == old(client).default_token,
                client.prefer_ipv6 == old(client).prefer_ipv6,
                client.transport == old(client).transport,
                client.heartbeat_timeout == old(client).heartbeat_timeout,
                client.retry_interval == old(client).retry_interval,
                accepted_client_services(before, 0, token, *files) == accepted_client_services(
                    before,
                    i as int,
                    token,
                    *files,
                ),
                client_services_filled(
                    before,
                    client.services.entries(),
                    i as int,
                    false,
                    token,
                    retry_interval,
                    *files,
                ),
            decreases before.len() - i,
        {
            let name = client.services.key_at(i).clone();
            let ghost prior = client.services.entries();
            let s = client.services.value_at_mut(i);
            let r = Config::validate_client_service(
                &name,
                s,
                &client.default_token,
                retry_interval,
                files,
            );
            proof {
                let now = client.services.entries();
                assert(now[i as int].0 == prior[i as int].0);
                assert(forall|j: int|
                    0 <= j < now.len() && j != i ==> #[trigger] now[j] == prior[j]);
                assert(prior[i as int].0 == before[i as int].0);
            }
            if let Err(e) = r {
                proof {
                    lemma_same_keys(old(client).services, client.services);
                }
                return Err(e);
            }
            i += 1;
        }
        proof {
            lemma_same_keys(old(client).services, client.services);
        }
        Config::validate_transport_config(&client.transport, false)
    }

    /// Checks a configuration file that was parsed: its server, its client, and that there
    /// is one of them.
    pub fn validate(&mut self, files: &DictionaryFiles) -> (r: Result<(), ConfigError>)
        requires
            old(self).server is Some ==> old(self).server->0.services.wf(),
            old(self).client is Some ==> old(self).client->0.services.wf(),
            files.wf(),
        ensures
            match r {
                Ok(()) => config_fault(*old(self), *files) is None,
                Err(e) => config_fault(*old(self), *files) == Some(e@),
            },
            match (old(self).server, final(self).server) {
                (Some(before), Some(after)) => server_filled(before, after, *files),
                (None, None) => true,
                _ => false,
            },
            match (old(self).client, final(self).client) {
                (Some(before), Some(after)) => if server_part_fault(*old(self), *files) is None {
                    client_filled(before, after, *files)
                } else {
                    after == before
                },
                (None, None) => true,
                _ => false,
            },
    {
        if let Some(server) = &mut self.server {
            if let Err(e) = Config::validate_server_config(server, files) {
                return Err(e);
            }
        }
        if let Some(client) = &mut self.client {
            if let Err(e) = Config::validate_client_config(client, files) {
                return Err(e);
            }
        }
        if self.server.is_none() && self.client.is_none() {
            return Err(ConfigError::NoRole);
        }
        Ok(())
    }
}

impl Config {
    /// The `[client]` block, for running as a client.
    pub fn into_client(self) -> (r: Result<ClientConfig, &'static str>)
        ensures
            match self.client {
                Some(client) => r == Ok::<ClientConfig, &'static str>(client),
                None => r matches Err(text) && text@
                    == "Try to run as a client, but the configuration is missing. Please add the `[client]` block"@,
            },
    {
        match self.client {
            Some(client) => Ok(client),
            None => Err(
                "Try to run as a client, but the configuration is missing. Please add the `[client]` block",
            ),
        }
    }

    /// The `[server]` block, for running as a server.
    pub fn into_server(self) -> (r: Result<ServerConfig, &'static str>)
        ensures
            match self.server {
                Some(server) => r == Ok::<ServerConfig, &'static str>(server),
                None => r matches Err(text) && text@
                    == "Try to run as a server, but the configuration is missing. Please add the `[server]` block"@,
            },
    {
        match self.server {
            Some(server) => Ok(server),
            None => Err(
                "Try to run as a server, but the configuration is missing. Please add the `[server]` block",
            ),
        }
    }
}

/// Why the server of a configuration file is refused.
pub open spec fn server_part_fault(config: Config, files: DictionaryFiles) -> Option<ConfigFault> {
    match config.server {
        Some(server) => server_fault(server, files),
        None => None,
    }
}

/// Why a configuration file is refused.
pub open spec fn config_fault(config: Config, files: DictionaryFiles) -> Option<ConfigFault> {
    if server_part_fault(config, files) is Some {
        server_part_fault(config, files)
    } else if config.client is Some {
        client_fault(config.client->0, files)
    } else if config.server is Some {
        None
    } else {
        Some(ConfigFault::NoRole)
    }
}

proof fn lemma_same_keys<V>(a: Table<String, V>, b: Table<String, V>)
    requires
        a.wf(),
        a.entries().len() == b.entries().len(),
        forall|i: int| 0 <= i < a.entries().len() ==> (#[trigger] b.entries()[i]).0
            == a.entries()[i].0,
    ensures
        b.wf(),
{
    assert forall|i: int, j: int| 0 <= i < j < b.entries().len() implies (
    #[trigger] b.entries()[i]).0@ != (#[trigger] b.entries()[j]).0@ by {
        assert(a.entries()[i].0@ != a.entries()[j].0@);
    }
}

/// Checking a service that was checked before changes nothing.
pub proof fn law_server_service_validation_is_idempotent(
    name: Seq<char>,
    s: ServerServiceView,
    default_token: Option<Seq<char>>,
    files: DictionaryFiles,
)
    requires
        server_service_error(name, s, default_token, files) is None,
    ensures
        ({
            let v = validated_server_service(name, s, default_token, files);
            &&& server_service_error(name, v, default_token, files) is None
            &&& validated_server_service(name, v, default_token, files) == v
        }),
{
}

/// Checking a service that was checked before changes nothing.
pub proof fn law_client_service_validation_is_idempotent(
    name: Seq<char>,
    s: ClientServiceView,
    default_token: Option<Seq<char>>,
    retry_interval: u64,
    files: DictionaryFiles,
)
    requires
        client_service_error(name, s, default_token, files) is None,
    ensures
        ({
            let v = validated_client_service(name, s, default_token, retry_interval, files);
            &&& client_service_error(name, v, default_token, files) is None
            &&& validated_client_service(name, v, default_token, retry_interval, files) == v
        }),
{
}

/// A service that was accepted has a token. With compression it has a sample window at
/// least 100 times as large as its dictionaries, which a control channel can carry, and it
/// says whether dictionaries are trained. A static dictionary always wins over a trained
/// one. Without compression there is nothing of all that.
pub proof fn law_accepted_server_service(
    name: Seq<char>,
    s: ServerServiceView,
    default_token: Option<Seq<char>>,
    files: DictionaryFiles,
)
    requires
        server_service_error(name, s, default_token, files) is None,
    ensures
        ({
            let v = validated_server_service(name, s, default_token, files);
            &&& v.name == name
            &&& v.token is Some
            &&& s.token is Some ==> v.token == s.token
            &&& v.compression is Some ==> {
                &&& v.compression_sample_window is Some
                &&& v.compression_dictionary_max_size is Some
                &&& v.compression_sample_window->0 >= MIN_TRAIN_FACTOR
                    * v.compression_dictionary_max_size->0
                &&& v.compression_dictionary_max_size->0 <= MAX_DICT_PUSH_BYTES
                &&& v.compression_auto_dictionary is Some
                &&& v.compression_dictionary is Some ==> v.compression_auto_dictionary == Some(
                    false,
                ) && v.compression_dictionary_loaded is Some
                    && v.compression_dictionary_loaded->0.digest == protocol::sha256(
                    v.compression_dictionary_loaded->0.bytes,
                )
            }
            &&& v.compression is None ==> v.compression_dictionary is None
                && v.compression_auto_dictionary is None && v.compression_level is None
            &&& v.connection_reuse ==> v.service_type == ServiceType::Tcp
                && v.connection_reuse_max_idle is Some
        }),
{
}

/// A service of a server is accepted exactly if it has a token, of its own or by default; sets
/// nothing about compression without compression; keeps the level between 1 and 22, the
/// dictionaries within 16 MiB and the sample window at least 100 times as large as they are;
/// reuses only TCP channels, and bounds them only where it reuses them; and names a static
/// dictionary that can be read.
pub proof fn law_which_server_services_are_accepted(
    name: Seq<char>,
    s: ServerServiceView,
    default_token: Option<Seq<char>>,
    files: DictionaryFiles,
)
    ensures
        server_service_error(name, s, default_token, files) is None <==> {
            &&& s.token is Some || default_token is Some
            &&& s.compression is Some || (s.compression_auto_dictionary is None
                && s.compression_sample_window is None && s.compression_dictionary_max_size is None
                && s.compression_level is None && s.compression_dictionary is None)
            &&& s.compression_level matches Some(level) ==> 1 <= level <= 22
            &&& s.compression_dictionary_max_size matches Some(n) ==> n <= 16777216
            &&& s.compression is Some ==> (match s.compression_sample_window {
                Some(n) => n,
                None => 134217728u64,
            }) >= 100 * (match s.compression_dictionary_max_size {
                Some(n) => n,
                None => 112640u64,
            })
            &&& s.connection_reuse ==> s.service_type == ServiceType::Tcp
            &&& s.connection_reuse_max_idle is Some ==> s.connection_reuse
            &&& s.compression_dictionary matches Some(path) ==> (files.lookup(path) matches Some(Ok(_)))
        },
{
}

/// Validating a service that is accepted only fills in what it leaves open: its name, the
/// default token, what its dictionary file holds, and the documented defaults. What it says
/// itself stays, but for training next to a static dictionary, which is turned off.
pub proof fn law_validation_only_fills_in(
    name: Seq<char>,
    s: ServerServiceView,
    default_token: Option<Seq<char>>,
    files: DictionaryFiles,
)
    requires
        server_service_error(name, s, default_token, files) is None,
    ensures
        ({
            let v = validated_server_service(name, s, default_token, files);
            &&& v.name == name
            &&& v.service_type == s.service_type
            &&& v.bind_addr == s.bind_addr
            &&& v.nodelay == s.nodelay
            &&& v.compression == s.compression
            &&& v.compression_level == s.compression_level
            &&& v.compression_dictionary == s.compression_dictionary
            &&& v.connection_reuse == s.connection_reuse
            &&& s.token is Some ==> v.token == s.token
            &&& s.token is None ==> v.token == default_token
            &&& s.compression is Some ==> {
                &&& v.compression_sample_window == Some(
                    match s.compression_sample_window {
                        Some(n) => n,
                        None => 134217728u64,
                    },
                )
                &&& v.compression_dictionary_max_size == Some(
                    match s.compression_dictionary_max_size {
                        Some(n) => n,
                        None => 112640u64,
                    },
                )
                &&& v.compression_auto_dictionary == Some(
                    s.compression_dictionary is None && (match s.compression_auto_dictionary {
                        Some(wanted) => wanted,
                        None => true,
                    }),
                )
            }
            &&& s.compression_dictionary matches Some(path) ==> (files.lookup(path) matches Some(
                Ok(bytes),
            ) && v.compression_dictionary_loaded matches Some(d) && d.bytes == bytes@ && d.digest
                == protocol::sha256(bytes@))
            &&& s.connection_reuse ==> v.connection_reuse_max_idle == Some(
                match s.connection_reuse_max_idle {
                    Some(n) => n,
                    None => 64usize,
                },
            )
        }),
{
}

/// The list of addresses that a client uses holds every configured address, and none
/// twice.
pub proof fn law_normalized_addresses(list: Seq<Seq<char>>)
    ensures
        first_occurrences(list).no_duplicates(),
        forall|addr: Seq<char>|
            #[trigger] first_occurrences(list).contains(addr) <==> list.contains(addr),
        list.len() > 0 ==> first_occurrences(list).len() > 0 && first_occurrences(list)[0]
            == list[0],
    decreases list.len(),
{
    if list.len() > 0 {
        let front = list.drop_last();
        let before = first_occurrences(front);
        let now = first_occurrences(list);
        law_normalized_addresses(front);
        assert forall|addr: Seq<char>| #[trigger] now.contains(addr) <==> list.contains(addr) by {
            if list.contains(addr) {
                let i = choose|i: int| 0 <= i < list.len() && list[i] == addr;
                if i < front.len() {
                    assert(front[i] == addr);
                    assert(before.contains(addr));
                    let j = choose|j: int| 0 <= j < before.len() && before[j] == addr;
                    assert(now[j] == addr);
                } else if !before.contains(list.last()) {
                    assert(now[now.len() - 1] == addr);
                }
            }
            if now.contains(addr) {
                let j = choose|j: int| 0 <= j < now.len() && now[j] == addr;
                if j < before.len() {
                    assert(before[j] == addr);
                    assert(before.contains(addr));
                    assert(front.contains(addr));
                    let i = choose|i: int| 0 <= i < front.len() && front[i] == addr;
                    assert(list[i] == addr);
                } else {
                    assert(list[list.len() - 1] == addr);
                }
            }
        }
    }
}

/// A service of a client is accepted exactly if it has a token, of its own or by default, and
/// any static dictionary that it names can be read. Validating it only fills in the name, the
/// default token, the retry interval of the client, and what the dictionary file holds.
pub proof fn law_which_client_services_are_accepted(
    name: Seq<char>,
    s: ClientServiceView,
    default_token: Option<Seq<char>>,
    retry_interval: u64,
    files: DictionaryFiles,
)
    ensures
        client_service_error(name, s, default_token, files) is None <==> {
            &&& s.token is Some || default_token is Some
            &&& s.compression_dictionary matches Some(path) ==> (files.lookup(path) matches Some(
                Ok(_),
            ))
        },
        client_service_error(name, s, default_token, files) is None ==> {
            let v = validated_client_service(name, s, default_token, retry_interval, files);
            &&& v.name == name
            &&& v.service_type == s.service_type
            &&& v.local_addr == s.local_addr
            &&& v.compression_dictionary == s.compression_dictionary
            &&& s.token is Some ==> v.token == s.token
            &&& s.token is None ==> v.token == default_token
            &&& s.retry_interval is Some ==> v.retry_interval == s.retry_interval
            &&& s.retry_interval is None ==> v.retry_interval == Some(retry_interval)
            &&& s.compression_dictionary matches Some(path) ==> (files.lookup(path) matches Some(
                Ok(bytes),
            ) && v.compression_dictionary_loaded matches Some(d) && d.bytes == bytes@ && d.digest
                == protocol::sha256(bytes@))
        },
{
}

proof fn lemma_all_server_services_accepted(
    entries: Seq<(String, ServerServiceConfig)>,
    from: int,
    token: Option<Seq<char>>,
    files: DictionaryFiles,
)
    requires
        0 <= from <= entries.len(),
    ensures
        ({
            let k = accepted_server_services(entries, from, token, files);
            &&& from <= k <= entries.len()
            &&& forall|i: int|
                from <= i < k ==> server_service_error(
                    (#[trigger] entries[i]).0@,
                    entries[i].1@,
                    token,
                    files,
                ) is None
            &&& k < entries.len() ==> server_service_error(
                entries[k].0@,
                entries[k].1@,
                token,
                files,
            ) is Some
        }),
    decreases entries.len() - from,
{
    if from < entries.len() && server_service_error(
        entries[from].0@,
        entries[from].1@,
        token,
        files,
    ) is None {
        lemma_all_server_services_accepted(entries, from + 1, token, files);
    }
}

proof fn lemma_all_client_services_accepted(
    entries: Seq<(String, ClientServiceConfig)>,
    from: int,
    token: Option<Seq<char>>,
    files: DictionaryFiles,
)
    requires
        0 <= from <= entries.len(),
    ensures
        ({
            let k = accepted_client_services(entries, from, token, files);
            &&& from <= k <= entries.len()
            &&& forall|i: int|
                from <= i < k ==> client_service_error(
                    (#[trigger] entries[i]).0@,
                    entries[i].1@,
                    token,
                    files,
                ) is None
            &&& k < entries.len() ==> client_service_error(
                entries[k].0@,
                entries[k].1@,
                token,
                files,
            ) is Some
        }),
    decreases entries.len() - from,
{
    if from < entries.len() && client_service_error(
        entries[from].0@,
        entries[from].1@,
        token,
        files,
    ) is None {
        lemma_all_client_services_accepted(entries, from + 1, token, files);
    }
}

/// A server is accepted exactly if each of its services and its transport are. The default
/// token is for all services that have none of their own.
pub proof fn law_a_server_is_accepted_with_all_its_parts(
    server: ServerConfig,
    files: DictionaryFiles,
    transport: Result<(), ConfigError>,
)
    requires
        call_ensures(Config::validate_transport_config, (&server.transport, true), transport),
    ensures
        ({
            let token = match server.default_token {
                Some(token) => Some(token@),
                None => None,
            };
            let entries = server.services.entries();
            server_fault(server, files) is None <==> transport is Ok && forall|i: int|
                0 <= i < entries.len() ==> server_service_error(
                    (#[trigger] entries[i]).0@,
                    entries[i].1@,
                    token,
                    files,
                ) is None
        }),
{
    let token = opt_secret(server.default_token);
    let entries = server.services.entries();
    lemma_all_server_services_accepted(entries, 0, token, files);
    let k = accepted_server_services(entries, 0, token, files);
    if k < entries.len() {
        assert(server_service_error(entries[k].0@, entries[k].1@, token, files) is Some);
    }
}

/// A client is accepted exactly if it names a server, no address is empty, and each of its
/// services and its transport are accepted.
pub proof fn law_a_client_is_accepted_with_all_its_parts(
    client: ClientConfig,
    files: DictionaryFiles,
    transport: Result<(), ConfigError>,
)
    requires
        call_ensures(Config::validate_transport_config, (&client.transport, false), transport),
    ensures
        ({
            let token = match client.default_token {
                Some(token) => Some(token@),
                None => None,
            };
            let addrs = client.remote_addr@;
            let entries = client.services.entries();
            client_fault(client, files) is None <==> {
                &&& addrs.len() > 0
                &&& forall|i: int| 0 <= i < addrs.len() ==> (#[trigger] addrs[i]).len() > 0
                &&& forall|i: int|
                    0 <= i < entries.len() ==> client_service_error(
                        (#[trigger] entries[i]).0@,
                        entries[i].1@,
                        token,
                        files,
                    ) is None
                &&& transport is Ok
            }
        }),
{
    let token = opt_secret(client.default_token);
    let entries = client.services.entries();
    lemma_all_client_services_accepted(entries, 0, token, files);
    let k = accepted_client_services(entries, 0, token, files);
    if k < entries.len() {
        assert(client_service_error(entries[k].0@, entries[k].1@, token, files) is Some);
    }
}

/// A configuration is accepted exactly if it has a server or a client, and what it has is
/// accepted.
pub proof fn law_a_configuration_needs_a_role(config: Config, files: DictionaryFiles)
    ensures
        config_fault(config, files) is None <==> {
            &&& config.server is Some || config.client is Some
            &&& config.server matches Some(server) ==> server_fault(server, files) is None
            &&& config.client matches Some(client) ==> client_fault(client, files) is None
        },
{
}

} // verus!
