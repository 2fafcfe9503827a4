//! Control channels: how they are opened, what is sent on them, and which of them are up.
use crate::config;
use crate::config::{ServerConfig, ServerServiceConfig, ServiceType};
use crate::protocol;
use crate::protocol::{Ack, Auth, ControlChannelCmd, Digest, Hello, CURRENT_PROTO_VERSION};
use crate::server::pool::CompressionCtx;
use crate::server::state;
use crate::server::state::Generation;
use crate::table::Table;
use crate::text;
use rand::Rng;
use vstd::prelude::*;
use vstd::utf8::*;

verus! {

/// Capacity of the queues between tasks.
pub const CHAN_SIZE: usize = 2048;

/// Seconds that a transport handshake may take.
pub const HANDSHAKE_TIMEOUT: u64 = 5;

/// Seconds that a write on a control channel may stall.
pub const CONTROL_WRITE_TIMEOUT: u64 = 10;

/// `rand::rng().fill_bytes` fills the array with random bytes; any value may come out.
#[verifier::external_body]
fn random_nonce() -> (r: Digest) {
    let mut nonce: Digest = [0u8; 32];
    rand::rng().fill_bytes(&mut nonce);
    nonce
}

/// The key of a session: what both sides compute from the token and the nonce.
pub open spec fn session_key_of(token: Seq<char>, nonce: Seq<u8>) -> Seq<u8> {
    protocol::sha256(encode_utf8(token) + nonce)
}

/// Computes the key of a session.
pub fn session_key(token: &str, nonce: &Digest) -> (r: Digest)
    ensures
        r@ == session_key_of(token@, nonce@),
{
    let mut concat = protocol::slice_to_vec(token.as_bytes());
    let ghost head = concat@;
    concat.extend_from_slice(nonce.as_slice());
    proof {
        assert(concat@ =~= head + nonce@);
    }
    protocol::digest(concat.as_slice())
}

/// The first message of the server on a control channel: a nonce that is used once.
pub fn challenge() -> (r: (Digest, Hello))
    ensures
        r.1 == Hello::ControlChannelHello(CURRENT_PROTO_VERSION, r.0),
{
    let nonce = random_nonce();
    (nonce, challenge_with(nonce))
}

/// The first message of the server on a control channel for a given nonce.
pub fn challenge_with(nonce: Digest) -> (r: Hello)
    ensures
        r == Hello::ControlChannelHello(CURRENT_PROTO_VERSION, nonce),
{
    Hello::ControlChannelHello(CURRENT_PROTO_VERSION, nonce)
}

/// A control channel that is refused: the verdict for the client, and what is logged.
pub struct Refusal {
    pub ack: Ack,
    pub reason: String,
}

/// The services of a server, by the digests of their names.
pub type Services = Table<Digest, ServerServiceConfig>;

/// The services of a configuration, by the digests of their names.
pub fn generate_service_hashmap(config: &ServerConfig) -> (r: Services)
    requires
        config.services.wf(),
    ensures
        r.wf(),
        forall|i: int|
            0 <= i < config.services.entries().len() && (forall|j: int|
                i < j < config.services.entries().len() ==> protocol::sha256(
                    encode_utf8((#[trigger] config.services.entries()[j]).0@),
                ) != protocol::sha256(encode_utf8(config.services.entries()[i].0@))) ==> r.lookup(
                protocol::sha256(encode_utf8((#[trigger] config.services.entries()[i]).0@)),
            ) is Some && r.lookup(
                protocol::sha256(encode_utf8(config.services.entries()[i].0@)),
            )->0@ == config.services.entries()[i].1@,
        forall|id: Seq<u8>|
            (#[trigger] r.lookup(id)) is Some ==> exists|i: int|
                0 <= i < config.services.entries().len() && id == protocol::sha256(
                    encode_utf8((#[trigger] config.services.entries()[i]).0@),
                ),
{
    let mut r: Services = Table::new();
    let ghost entries = config.services.entries();
    let mut k: usize = 0;
    while k < config.services.len()
        invariant
            r.wf(),
            entries == config.services.entries(),
            k <= entries.len(),
            forall|i: int|
                0 <= i < k && (forall|j: int|
                    i < j < k ==> protocol::sha256(encode_utf8((#[trigger] entries[j]).0@))
                        != protocol::sha256(encode_utf8(entries[i].0@))) ==> r.lookup(
                    protocol::sha256(encode_utf8((#[trigger] entries[i]).0@)),
                ) is Some && r.lookup(protocol::sha256(encode_utf8(entries[i].0@)))->0@
                    == entries[i].1@,
            forall|id: Seq<u8>|
                (#[trigger] r.lookup(id)) is Some ==> exists|i: int|
                    0 <= i < k && id == protocol::sha256(encode_utf8((#[trigger] entries[i]).0@)),
        decreases entries.len() - k,
    {
        let key = protocol::digest(config.services.key_at(k).as_str().as_bytes());
        let ghost before = r;
        let _ = r.insert(key, config.services.value_at(k).clone());
        proof {
            let id = protocol::sha256(encode_utf8(entries[k as int].0@));
            assert(key@ == id);
            assert forall|i: int|
                0 <= i < k + 1 && (forall|j: int|
                    i < j < k + 1 ==> protocol::sha256(encode_utf8((#[trigger] entries[j]).0@))
                        != protocol::sha256(encode_utf8(entries[i].0@))) implies r.lookup(
                protocol::sha256(encode_utf8((#[trigger] entries[i]).0@)),
            ) is Some && r.lookup(protocol::sha256(encode_utf8(entries[i].0@)))->0@
                == entries[i].1@ by {
                if i < k {
                    assert(protocol::sha256(encode_utf8(entries[k as int].0@)) != protocol::sha256(
                        encode_utf8(entries[i].0@),
                    ));
                    assert(before.lookup(protocol::sha256(encode_utf8(entries[i].0@))) is Some);
                }
            }
            assert forall|other: Seq<u8>|
                (#[trigger] r.lookup(other)) is Some implies exists|i: int|
                0 <= i < k + 1 && other == protocol::sha256(
                    encode_utf8((#[trigger] entries[i]).0@),
                ) by {
                if other == id {
                    assert(other == protocol::sha256(encode_utf8(entries[k as int].0@)));
                } else {
                    assert(before.lookup(other) is Some);
                    let i = choose|i: int|
                        0 <= i < k && other == protocol::sha256(
                            encode_utf8((#[trigger] entries[i]).0@),
                        );
                    assert(other == protocol::sha256(encode_utf8(entries[i].0@)));
                }
            }
        }
        k += 1;
    }
    r
}

/// Looks up the service that a client wants.
pub fn lookup_service(services: &Services, digest: &Digest) -> (r: Result<
    ServerServiceConfig,
    Refusal,
>)
    requires
        services.wf(),
    ensures
        match r {
            Ok(service) => services.lookup(digest@) is Some && service@ == services.lookup(
                digest@,
            )->0@,
            Err(refusal) => services.lookup(digest@) is None && refusal.ack == Ack::ServiceNotExist
                && refusal.reason@ == "No such a service "@ + text::hex_text(digest@),
        },
{
    match services.get(digest) {
        Some(service) => Ok(service.clone()),
        None => {
            let mut reason = String::new();
            reason.push_str("No such a service ");
            let hex = text::hex_encode(digest);
            reason.push_str(hex.as_str());
            proof {
                assert(reason@ =~= "No such a service "@ + text::hex_text(digest@));
            }
            Err(Refusal { ack: Ack::ServiceNotExist, reason })
        },
    }
}

/// Checks the answer of a client to the nonce. The session key is returned where it is
/// right.
pub fn authenticate(service: &ServerServiceConfig, nonce: &Digest, auth: &Auth) -> (r: Result<
    Digest,
    Refusal,
>)
    requires
        service.token is Some,
    ensures
        auth_verdict(*service, *nonce, *auth, r),
{
    let token = match &service.token {
        Some(token) => token.as_str(),
        None => "",
    };
    let key = session_key(token, nonce);
    if protocol::same_digest(&key, &auth.0) {
        Ok(key)
    } else {
        let mut reason = String::new();
        reason.push_str("Service ");
        reason.push_str(service.name.as_str());
        reason.push_str(" failed the authentication");
        proof {
            assert(reason@ =~= "Service "@ + service.name@ + " failed the authentication"@);
        }
        Err(Refusal { ack: Ack::AuthFailed, reason })
    }
}

/// Whether the service of a handshake is still configured as it was when it was looked up.
pub fn still_current(services: &Services, digest: &Digest, service: &ServerServiceConfig) -> (r:
    bool)
    requires
        services.wf(),
    ensures
        r == (services.lookup(digest@) is Some && services.lookup(digest@)->0@ == service@),
{
    match services.get(digest) {
        Some(current) => current.same(service),
        None => false,
    }
}

/// A control channel: the digest of its service, its session key, and its handle.
pub struct Channel<H> {
    pub service: Digest,
    pub key: Digest,
    pub handle: H,
}

/// The control channels that are up, found by service or by session key. There is at most
/// one for a service, and at most one for a key.
pub struct ControlChannelMap<H> {
    channels: Vec<Channel<H>>,
}

/// The channels once the one of a service was dropped, which is `r`; without one they stay
/// as they are.
pub open spec fn channel_dropped<H>(
    before: ControlChannelMap<H>,
    after: ControlChannelMap<H>,
    service: Seq<u8>,
    r: Option<Channel<H>>,
) -> bool {
    match r {
        None => !before.has_service(service) && after.channels() == before.channels(),
        Some(c) => c.service@ == service && exists|i: int|
            0 <= i < before.channels().len() && #[trigger] before.channels()[i] == c
                && after.channels() == before.channels().remove(i),
    }
}

impl<H> ControlChannelMap<H> {
    pub closed spec fn channels(self) -> Seq<Channel<H>> {
        self.channels@
    }

    pub open spec fn wf(self) -> bool {
        forall|i: int, j: int|
            0 <= i < j < self.channels().len() ==> (#[trigger] self.channels()[i]).service@ != (
            #[trigger] self.channels()[j]).service@ && self.channels()[i].key@
                != self.channels()[j].key@
    }

    /// A control channel for the service is up.
    pub open spec fn has_service(self, service: Seq<u8>) -> bool {
        exists|i: int|
            0 <= i < self.channels().len() && (#[trigger] self.channels()[i]).service@ == service
    }

    /// A control channel with the session key is up.
    pub open spec fn has_key(self, key: Seq<u8>) -> bool {
        exists|i: int| 0 <= i < self.channels().len() && (#[trigger] self.channels()[i]).key@ == key
    }

    pub fn new() -> (r: Self)
        ensures
            r.wf(),
            r.channels().len() == 0,
    {
        ControlChannelMap { channels: Vec::new() }
    }

    /// The control channel with the session key.
    pub fn get2(&self, key: &Digest) -> (r: Option<&Channel<H>>)
        ensures
            match r {
                Some(c) => c.key@ == key@ && self.channels().contains(*c),
                None => !self.has_key(key@),
            },
    {
        let mut i: usize = 0;
        while i < self.channels.len()
            invariant
                i <= self.channels().len(),
                forall|j: int| 0 <= j < i ==> (#[trigger] self.channels()[j]).key@ != key@,
            decreases self.channels().len() - i,
        {
            if protocol::same_digest(&self.channels[i].key, key) {
                proof {
                    assert(self.channels()[i as int] == self.channels[i as int]);
                }
                return Some(&self.channels[i]);
            }
            i += 1;
        }
        None
    }

    /// Drops the control channel of a service.
    pub fn remove1(&mut self, service: &Digest) -> (r: Option<Channel<H>>)
        requires
            old(self).wf(),
        ensures
            final(self).wf(),
            !final(self).has_service(service@),
            channel_dropped(*old(self), *final(self), service@, r),
    {
        let mut i: usize = 0;
        while i < self.channels.len()
            invariant
                *self == *old(self),
                self.wf(),
                i <= self.channels().len(),
                forall|j: int| 0 <= j < i ==> (#[trigger] self.channels()[j]).service@ != service@,
            decreases self.channels().len() - i,
        {
            if protocol::same_digest(&self.channels[i].service, service) {
                let c = self.channels.remove(i);
                proof {
                    let k = i as int;
                    assert(old(self).channels()[k] == c);
                    assert forall|j: int| 0 <= j < self.channels().len() implies (
                    #[trigger] self.channels()[j]) == old(self).channels()[if j < k {
                        j
                    } else {
                        j + 1
                    }] by {}
                }
                return Some(c);
            }
            i += 1;
        }
        None
    }

    /// Adds a control channel. A channel whose service or key is in use is handed back.
    pub fn insert(&mut self, channel: Channel<H>) -> (r: Result<(), Channel<H>>)
        requires
            old(self).wf(),
        ensures
            final(self).wf(),
            match r {
                Ok(()) => !old(self).has_service(channel.service@) && !old(self).has_key(
                    channel.key@,
                ) && final(self).channels() == old(self).channels().push(channel),
                Err(c) => c == channel && (old(self).has_service(channel.service@) || old(
                    self,
                ).has_key(channel.key@)) && final(self).channels() == old(self).channels(),
            },
    {
        let mut i: usize = 0;
        while i < self.channels.len()
            invariant
                *self == *old(self),
                self.wf(),
                i <= self.channels().len(),
                forall|j: int|
                    0 <= j < i ==> (#[trigger] self.channels()[j]).service@ != channel.service@
                        && self.channels()[j].key@ != channel.key@,
            decreases self.channels().len() - i,
        {
            if protocol::same_digest(&self.channels[i].service, &channel.service)
                || protocol::same_digest(&self.channels[i].key, &channel.key) {
                proof {
                    assert(self.channels()[i as int] == self.channels[i as int]);
                }
                return Err(channel);
            }
            i += 1;
        }
        self.channels.push(channel);
        Ok(())
    }
}

/// What checking an authentication gives.
pub open spec fn auth_verdict(
    service: ServerServiceConfig,
    nonce: Digest,
    auth: Auth,
    r: Result<Digest, Refusal>,
) -> bool {
    match r {
        Ok(key) => auth.0@ == session_key_of(service.token->0@, nonce@) && key@ == auth.0@,
        Err(refusal) => auth.0@ != session_key_of(service.token->0@, nonce@) && refusal.ack
            == Ack::AuthFailed && refusal.reason@ == "Service "@ + service.name@
            + " failed the authentication"@,
    }
}

/// A client that has the token of the service is accepted, and both sides hold the same
/// session key. A client whose answer is another one is told that its token is incorrect.
pub proof fn law_the_token_decides(
    service: ServerServiceConfig,
    client_token: Seq<char>,
    nonce: Digest,
    auth: Auth,
    r: Result<Digest, Refusal>,
)
    requires
        service.token is Some,
        auth.0@ == session_key_of(client_token, nonce@),
        auth_verdict(service, nonce, auth, r),
    ensures
        client_token == service.token->0@ ==> (r matches Ok(key) && key@ == auth.0@),
        session_key_of(client_token, nonce@) != session_key_of(service.token->0@, nonce@) ==> (
        r matches Err(refusal) && refusal.ack == Ack::AuthFailed),
{
}

/// How a control channel of a service is set up.
pub struct ChannelPlan {
    /// Data channels that the client is asked for at once.
    pub preopen: usize,
    pub compression: Option<CompressionCtx>,
    pub heartbeat_interval: u64,
    pub reuse: bool,
    pub max_idle: usize,
}

/// Plans the control channel of a service.
pub fn plan_control_channel(service: &ServerServiceConfig, server: &ServerConfig) -> (r:
    ChannelPlan)
    ensures
        r.preopen == (match service.service_type {
            ServiceType::Tcp => server.tcp_pool_size,
            ServiceType::Udp => server.udp_pool_size,
        }),
        r.compression is Some <==> service.compression is Some,
        r.compression matches Some(ctx) ==> config::opt_dictionary(ctx.dict)
            == config::opt_dictionary(service.compression_dictionary_loaded) && ctx.level
            == state::service_level(service@),
        r.heartbeat_interval == server.heartbeat_interval,
        r.reuse == service.connection_reuse,
        r.max_idle == (match service.connection_reuse_max_idle {
            Some(n) => n,
            None => config::DEFAULT_REUSE_MAX_IDLE,
        }),
{
    ChannelPlan {
        preopen: match service.service_type {
            ServiceType::Tcp => server.tcp_pool_size,
            ServiceType::Udp => server.udp_pool_size,
        },
        compression: CompressionCtx::for_service(service),
        heartbeat_interval: server.heartbeat_interval,
        reuse: service.connection_reuse,
        max_idle: match service.connection_reuse_max_idle {
            Some(n) => n,
            None => config::DEFAULT_REUSE_MAX_IDLE,
        },
    }
}

/// What happens to a control channel of the server.
pub enum ControlEvent {
    /// The channel is up; the generation that is trained already.
    Started(Option<Generation>),
    /// A data channel is wanted, until `deadline` if there is one.
    Request { deadline: Option<u64>, now: u64 },
    /// Nobody wants data channels any more.
    RequestsClosed,
    /// The heartbeat interval has passed.
    Heartbeat,
    /// The generation has changed.
    Generation(Option<Generation>),
    /// The generation will not change any more.
    GenerationsClosed,
    /// A write failed or stalled.
    WriteFailed,
    Shutdown,
}

/// What is done about it.
pub enum ControlAction {
    /// Send the command, and flush.
    Send(ControlChannelCmd),
    Wait,
    Stop,
}

/// A control channel of the server.
pub struct ControlChannel {
    pub heartbeat_interval: u64,
    /// Generations are waited for.
    pub watching: bool,
}

/// The action sends the dictionary of the generation, if there is one.
pub open spec fn pushes(generation: Option<Generation>, action: ControlAction) -> bool {
    match generation {
        Some(g) => action matches ControlAction::Send(
            ControlChannelCmd::UpdateCompressionDict { digest, dictionary },
        ) && digest == g.digest && dictionary@ == g.dictionary.bytes@,
        None => action is Wait,
    }
}

/// What an event asks a control channel for.
pub open spec fn control_decision(
    c: ControlChannel,
    event: ControlEvent,
    action: ControlAction,
) -> bool {
    match event {
        ControlEvent::Started(generation) => if c.watching {
            pushes(generation, action)
        } else {
            action is Wait
        },
        ControlEvent::Generation(generation) => if c.watching {
            pushes(generation, action)
        } else {
            action is Wait
        },
        ControlEvent::Request { deadline, now } => if deadline is Some && now >= deadline->0 {
            action is Wait
        } else {
            action == ControlAction::Send(ControlChannelCmd::CreateDataChannel)
        },
        ControlEvent::Heartbeat => if c.heartbeat_interval != 0 {
            action == ControlAction::Send(ControlChannelCmd::HeartBeat)
        } else {
            action is Wait
        },
        ControlEvent::GenerationsClosed => action is Wait,
        ControlEvent::RequestsClosed => action is Stop,
        ControlEvent::WriteFailed => action is Stop,
        ControlEvent::Shutdown => action is Stop,
    }
}

impl ControlChannel {
    pub fn new(heartbeat_interval: u64, watching: bool) -> (r: Self)
        ensures
            r == (ControlChannel { heartbeat_interval, watching }),
    {
        ControlChannel { heartbeat_interval, watching }
    }

    /// Whether heartbeats are sent at all.
    pub fn heartbeat_enabled(&self) -> (r: bool)
        ensures
            r == (self.heartbeat_interval != 0),
    {
        self.heartbeat_interval != 0
    }

    /// Decides what an event asks for.
    pub fn on_event(&mut self, event: ControlEvent) -> (action: ControlAction)
        ensures
            final(self).heartbeat_interval == old(self).heartbeat_interval,
            final(self).watching == (old(self).watching && !(event is GenerationsClosed)),
            control_decision(*old(self), event, action),
    {
        match event {
            ControlEvent::Started(generation) | ControlEvent::Generation(generation) => {
                if !self.watching {
                    return ControlAction::Wait;
                }
                match generation {
                    Some(g) => ControlAction::Send(g.push_cmd()),
                    None => ControlAction::Wait,
                }
            },
            ControlEvent::Request { deadline, now } => {
                if let Some(deadline) = deadline {
                    if now >= deadline {
                        return ControlAction::Wait;
                    }
                }
                ControlAction::Send(ControlChannelCmd::CreateDataChannel)
            },
            ControlEvent::Heartbeat => {
                if self.heartbeat_interval == 0 {
                    return ControlAction::Wait;
                }
                ControlAction::Send(ControlChannelCmd::HeartBeat)
            },
            ControlEvent::GenerationsClosed => {
                self.watching = false;
                ControlAction::Wait
            },
            ControlEvent::RequestsClosed => ControlAction::Stop,
            ControlEvent::WriteFailed => ControlAction::Stop,
            ControlEvent::Shutdown => ControlAction::Stop,
        }
    }
}

/// A control channel that waits for no generations sends nothing but the commands that
/// clients without dictionaries know.
pub proof fn law_without_generations_no_dictionary_is_sent(
    before: ControlChannel,
    event: ControlEvent,
    action: ControlAction,
)
    requires
        !before.watching,
        control_decision(before, event, action),
    ensures
        action matches ControlAction::Send(cmd) ==> cmd == ControlChannelCmd::CreateDataChannel
            || cmd == ControlChannelCmd::HeartBeat,
{
}

/// What happens to the listener of a server or of a service.
#[derive(Clone, Copy, PartialEq, Eq, Debug)]
pub enum ListenEvent {
    /// Accepting failed, most likely for want of file descriptors; how long to wait, if
    /// there is to be another try.
    IoError { retry_ms: Option<u64> },
    /// Accepting failed in the transport.
    TransportError,
    Accepted,
    /// The peer failed the transport handshake, or took too long for it.
    HandshakeFailed,
    HandshakeDone,
    /// The data channel for a visitor could not be asked for: the control channel is
    /// broken.
    RequestFailed,
    Update,
    Shutdown,
}

/// What is done about it.
#[derive(Clone, Copy, PartialEq, Eq, Debug, Structural)]
pub enum ListenAction {
    Sleep(u64),
    Continue,
    /// Forget earlier failures and go on with the connection.
    Proceed,
    /// Read the hello of the connection.
    Serve,
    Reload,
    Stop,
}

/// Decides what an event asks a listener for.
pub fn on_listen_event(event: ListenEvent) -> (r: ListenAction)
    ensures
        r == (match event {
            ListenEvent::IoError { retry_ms } => match retry_ms {
                Some(ms) => ListenAction::Sleep(ms),
                None => ListenAction::Stop,
            },
            ListenEvent::TransportError => ListenAction::Continue,
            ListenEvent::Accepted => ListenAction::Proceed,
            ListenEvent::HandshakeFailed => ListenAction::Continue,
            ListenEvent::HandshakeDone => ListenAction::Serve,
            ListenEvent::RequestFailed => ListenAction::Stop,
            ListenEvent::Update => ListenAction::Reload,
            ListenEvent::Shutdown => ListenAction::Stop,
        }),
{
    match event {
        ListenEvent::IoError { retry_ms } => match retry_ms {
            Some(ms) => ListenAction::Sleep(ms),
            None => ListenAction::Stop,
        },
        ListenEvent::TransportError => ListenAction::Continue,
        ListenEvent::Accepted => ListenAction::Proceed,
        ListenEvent::HandshakeFailed => ListenAction::Continue,
        ListenEvent::HandshakeDone => ListenAction::Serve,
        ListenEvent::RequestFailed => ListenAction::Stop,
        ListenEvent::Update => ListenAction::Reload,
        ListenEvent::Shutdown => ListenAction::Stop,
    }
}

/// What a connection to the server turns out to be.
#[derive(Clone, Copy, Debug)]
pub enum Connection {
    /// A control channel for the service with this digest.
    Control(Digest),
    /// A data channel for the control channel with this session key.
    Data(Digest),
}

/// Tells connections apart by their hello.
pub fn handle_connection(hello: &Hello) -> (r: Connection)
    ensures
        match *hello {
            Hello::ControlChannelHello(_, digest) => r == Connection::Control(digest),
            Hello::DataChannelHello(_, key) => r == Connection::Data(key),
        },
{
    match hello {
        Hello::ControlChannelHello(_, digest) => Connection::Control(*digest),
        Hello::DataChannelHello(_, key) => Connection::Data(*key),
    }
}

} // verus!
