//! The client: control channels to the servers, data channels, dictionaries that servers
//! push, and the forwarding of datagrams.
use crate::buffers;
use crate::config;
use crate::config::{ClientServiceConfig, DictionaryView, ServiceType};
use crate::protocol;
use crate::protocol::{
    Ack, Auth, ControlChannelCmd, DataChannelCmd, Digest, Hello, SocketAddr, UdpTraffic,
    CURRENT_PROTO_VERSION,
};
use crate::server::control;
use crate::server::control::Connection;
use crate::server::pool;
use crate::server::pool::{CompressionCtx, StreamPlan, VisitorPlan};
use crate::server::state::Generation;
use crate::table::Table;
use crate::text;
use std::collections::VecDeque;
use vstd::prelude::*;
use vstd::utf8::*;

verus! {

/// Dictionaries that a client keeps for a service.
pub const DICT_CACHE_CAPACITY: usize = 4;

/// Seconds that a data channel waits for the dictionary that it needs.
pub const DICT_WAIT_SECS: u64 = 5;

/// A control channel that was up for longer than this many milliseconds is reconnected
/// without a delay that earlier failures caused.
pub const STABLE_AFTER_MS: u64 = 3000;

struct CachedDictionary {
    digest: Digest,
    dictionary: Vec<u8>,
}

/// The dictionaries that a server pushed for a service, the oldest first.
pub struct DictCache {
    dictionaries: VecDeque<CachedDictionary>,
}

/// The bytes of the dictionary with the digest.
pub open spec fn cached(entries: Seq<DictionaryView>, digest: Seq<u8>) -> Option<Seq<u8>>
    decreases entries.len(),
{
    if entries.len() == 0 {
        None
    } else if entries.last().digest == digest {
        Some(entries.last().bytes)
    } else {
        cached(entries.drop_last(), digest)
    }
}

/// The dictionaries once another one came: one that is known changes nothing, and where
/// there is no room the oldest goes.
pub open spec fn with_dictionary(entries: Seq<DictionaryView>, d: DictionaryView) -> Seq<
    DictionaryView,
> {
    if cached(entries, d.digest) is Some {
        entries
    } else if entries.len() >= DICT_CACHE_CAPACITY {
        entries.skip(1).push(d)
    } else {
        entries.push(d)
    }
}

impl DictCache {
    /// The dictionaries, the oldest first.
    pub closed spec fn entries(self) -> Seq<DictionaryView> {
        self.dictionaries@.map_values(
            |c: CachedDictionary| DictionaryView { bytes: c.dictionary@, digest: c.digest@ },
        )
    }

    pub open spec fn wf(self) -> bool {
        self.entries().len() <= DICT_CACHE_CAPACITY
    }

    pub fn new() -> (r: Self)
        ensures
            r.wf(),
            r.entries() == Seq::<DictionaryView>::empty(),
    {
        let r = DictCache { dictionaries: VecDeque::new() };
        proof {
            assert(r.entries() =~= Seq::<DictionaryView>::empty());
        }
        r
    }

    /// Keeps a dictionary.
    pub fn insert(&mut self, digest: Digest, dictionary: Vec<u8>)
        requires
            old(self).wf(),
        ensures
            final(self).wf(),
            final(self).entries() == with_dictionary(
                old(self).entries(),
                DictionaryView { bytes: dictionary@, digest: digest@ },
            ),
    {
        if self.lookup(&digest).is_some() {
            return ;
        }
        let ghost before = self.entries();
        let ghost item = DictionaryView { bytes: dictionary@, digest: digest@ };
        if self.dictionaries.len() == DICT_CACHE_CAPACITY {
            let _ = self.dictionaries.pop_front();
            proof {
                assert(self.entries() =~= before.skip(1));
            }
        }
        let ghost middle = self.entries();
        self.dictionaries.push_back(CachedDictionary { digest, dictionary });
        proof {
            assert(self.entries() =~= middle.push(item));
        }
    }

    /// The dictionary with the digest.
    pub fn lookup(&self, digest: &Digest) -> (r: Option<&Vec<u8>>)
        ensures
            match r {
                Some(bytes) => cached(self.entries(), digest@) == Some(bytes@),
                None => cached(self.entries(), digest@) is None,
            },
    {
        let mut i: usize = self.dictionaries.len();
        proof {
            assert(self.entries().take(i as int) =~= self.entries());
        }
        while i > 0
            invariant
                i <= self.dictionaries@.len(),
                self.entries().len() == self.dictionaries@.len(),
                cached(self.entries(), digest@) == cached(self.entries().take(i as int), digest@),
            decreases i,
        {
            let ghost front = self.entries().take(i as int);
            proof {
                assert(front.drop_last() =~= self.entries().take(i - 1));
                assert(front.last().digest == self.dictionaries@[i - 1].digest@);
            }
            if protocol::same_digest(&self.dictionaries[i - 1].digest, digest) {
                return Some(&self.dictionaries[i - 1].dictionary);
            }
            i -= 1;
        }
        None
    }
}

/// No two dictionaries have the same digest.
pub open spec fn distinct(entries: Seq<DictionaryView>) -> bool {
    forall|i: int, j: int|
        0 <= i < j < entries.len() ==> (#[trigger] entries[i]).digest != (
        #[trigger] entries[j]).digest
}

proof fn lemma_cached_at(entries: Seq<DictionaryView>, i: int)
    requires
        distinct(entries),
        0 <= i < entries.len(),
    ensures
        cached(entries, entries[i].digest) == Some(entries[i].bytes),
    decreases entries.len(),
{
    if i < entries.len() - 1 {
        assert(entries[i].digest != entries[entries.len() - 1].digest);
        lemma_cached_at(entries.drop_last(), i);
        assert(entries.drop_last()[i] == entries[i]);
    }
}

proof fn lemma_cached_somewhere(entries: Seq<DictionaryView>, digest: Seq<u8>)
    ensures
        cached(entries, digest) is Some <==> exists|i: int|
            0 <= i < entries.len() && (#[trigger] entries[i]).digest == digest,
    decreases entries.len(),
{
    if entries.len() > 0 {
        let front = entries.drop_last();
        lemma_cached_somewhere(front, digest);
        if entries.last().digest == digest {
            assert(entries[entries.len() - 1].digest == digest);
        }
        if cached(front, digest) is Some {
            let i = choose|i: int| 0 <= i < front.len() && (#[trigger] front[i]).digest == digest;
            assert(entries[i].digest == digest);
        }
        if exists|i: int| 0 <= i < entries.len() && (#[trigger] entries[i]).digest == digest {
            let i = choose|i: int|
                0 <= i < entries.len() && (#[trigger] entries[i]).digest == digest;
            if i < front.len() {
                assert(front[i].digest == digest);
            }
        }
    }
}

/// A dictionary that was pushed is found, unless it was there before. At most four are
/// kept, no two with the same digest; the first one that came is the first one to go, and
/// all others stay.
pub proof fn law_cache_keeps_the_latest_dictionaries(
    entries: Seq<DictionaryView>,
    d: DictionaryView,
)
    requires
        distinct(entries),
        entries.len() <= DICT_CACHE_CAPACITY,
    ensures
        with_dictionary(entries, d).len() <= DICT_CACHE_CAPACITY,
        distinct(with_dictionary(entries, d)),
        cached(entries, d.digest) is None ==> cached(with_dictionary(entries, d), d.digest) == Some(
            d.bytes,
        ),
        forall|i: int|
            0 <= i < entries.len() && (i > 0 || entries.len() < DICT_CACHE_CAPACITY)
                ==> cached(with_dictionary(entries, d), (#[trigger] entries[i]).digest) == Some(
                entries[i].bytes,
            ),
        entries.len() == DICT_CACHE_CAPACITY && cached(entries, d.digest) is None ==> cached(
            with_dictionary(entries, d),
            entries[0].digest,
        ) is None,
{
    let after = with_dictionary(entries, d);
    lemma_cached_somewhere(entries, d.digest);
    if cached(entries, d.digest) is Some {
        assert forall|i: int| 0 <= i < entries.len() implies cached(
            after,
            (#[trigger] entries[i]).digest,
        ) == Some(entries[i].bytes) by {
            lemma_cached_at(entries, i);
        }
    } else {
        let shift: int = if entries.len() >= DICT_CACHE_CAPACITY {
            1
        } else {
            0
        };
        assert forall|k: int| 0 <= k < after.len() - 1 implies #[trigger] after[k] == entries[k
            + shift] by {}
        assert forall|i: int, j: int| 0 <= i < j < after.len() implies (
        #[trigger] after[i]).digest != (#[trigger] after[j]).digest by {
            assert(entries[i + shift].digest == after[i].digest);
            if j < after.len() - 1 {
                assert(entries[j + shift].digest == after[j].digest);
            }
        }
        lemma_cached_at(after, after.len() - 1);
        assert forall|i: int|
            0 <= i < entries.len() && (i > 0 || entries.len()
                < DICT_CACHE_CAPACITY) implies cached(after, (#[trigger] entries[i]).digest)
            == Some(entries[i].bytes) by {
            assert(after[i - shift] == entries[i]);
            lemma_cached_at(after, i - shift);
        }
        if entries.len() == DICT_CACHE_CAPACITY {
            lemma_cached_somewhere(after, entries[0].digest);
            if cached(after, entries[0].digest) is Some {
                let k = choose|k: int|
                    0 <= k < after.len() && (#[trigger] after[k]).digest == entries[0].digest;
                if k < after.len() - 1 {
                    assert(entries[k + 1].digest == entries[0].digest);
                } else {
                    assert(entries[0].digest == d.digest);
                }
            }
        }
    }
}

/// Takes a dictionary that a server pushed, if its digest is right.
pub fn handle_compression_dict_update(cache: &mut DictCache, digest: Digest, dictionary: Vec<u8>)
    -> (kept: bool)
    requires
        old(cache).wf(),
    ensures
        final(cache).wf(),
        kept == (protocol::sha256(dictionary@) == digest@),
        final(cache).entries() == (if kept {
            with_dictionary(
                old(cache).entries(),
                DictionaryView { bytes: dictionary@, digest: digest@ },
            )
        } else {
            old(cache).entries()
        }),
{
    let actual = protocol::digest(dictionary.as_slice());
    if !protocol::same_digest(&actual, &digest) {
        return false;
    }
    cache.insert(digest, dictionary);
    true
}

/// The dictionary of a data channel.
pub enum Resolve {
    /// Plain zstd. `unused` says that the client has a dictionary that the server did not
    /// ask for.
    Plain { unused: bool },
    /// This dictionary.
    Use(Vec<u8>),
    /// The server is yet to push it.
    Wait,
}

/// What the client has for a digest that the server announces.
pub open spec fn resolution(
    digest: Seq<u8>,
    loaded: Option<DictionaryView>,
    entries: Seq<DictionaryView>,
    r: Resolve,
) -> bool {
    if digest == protocol::zero_digest() {
        r == (Resolve::Plain { unused: loaded is Some })
    } else if cached(entries, digest) is Some {
        r matches Resolve::Use(bytes) && bytes@ == cached(entries, digest)->0
    } else if loaded is Some && loaded->0.digest == digest {
        r matches Resolve::Use(bytes) && bytes@ == loaded->0.bytes
    } else {
        r is Wait
    }
}

/// Finds the dictionary that the server announces: one that it pushed, or the one that is
/// configured. Call again whenever the server pushed one.
pub fn resolve_client_dict(
    dict_digest: &Digest,
    service: &ClientServiceConfig,
    cache: &DictCache,
) -> (r: Resolve)
    requires
        cache.wf(),
    ensures
        resolution(
            dict_digest@,
            config::opt_dictionary(service.compression_dictionary_loaded),
            cache.entries(),
            r,
        ),
{
    let zero = protocol::zero();
    if protocol::same_digest(dict_digest, &zero) {
        return Resolve::Plain { unused: service.compression_dictionary_loaded.is_some() };
    }
    if let Some(bytes) = cache.lookup(dict_digest) {
        return Resolve::Use(protocol::slice_to_vec(bytes.as_slice()));
    }
    if let Some(dictionary) = &service.compression_dictionary_loaded {
        if protocol::same_digest(&dictionary.digest, dict_digest) {
            return Resolve::Use(protocol::slice_to_vec(dictionary.bytes.as_slice()));
        }
    }
    Resolve::Wait
}

/// A data channel whose dictionary was pushed in time uses exactly the bytes that were
/// pushed.
pub proof fn law_pushed_dictionary_is_used(
    digest: Seq<u8>,
    bytes: Seq<u8>,
    loaded: Option<DictionaryView>,
    entries: Seq<DictionaryView>,
    r: Resolve,
)
    requires
        digest != protocol::zero_digest(),
        cached(entries, digest) is None,
        distinct(entries),
        entries.len() <= DICT_CACHE_CAPACITY,
        resolution(digest, loaded, with_dictionary(entries, DictionaryView { bytes, digest }), r),
    ensures
        r matches Resolve::Use(b) && b@ == bytes,
{
    law_cache_keeps_the_latest_dictionaries(entries, DictionaryView { bytes, digest });
}

/// Every dictionary is kept under its own digest.
pub open spec fn authentic(entries: Seq<DictionaryView>) -> bool {
    forall|i: int|
        0 <= i < entries.len() ==> protocol::sha256((#[trigger] entries[i]).bytes)
            == entries[i].digest
}

/// A cache that takes only dictionaries whose digest is right keeps every dictionary under
/// its own digest.
pub proof fn law_cache_stays_authentic(entries: Seq<DictionaryView>, d: DictionaryView)
    requires
        authentic(entries),
        protocol::sha256(d.bytes) == d.digest,
    ensures
        authentic(with_dictionary(entries, d)),
{
    let after = with_dictionary(entries, d);
    assert forall|i: int| 0 <= i < after.len() implies protocol::sha256(
        (#[trigger] after[i]).bytes,
    ) == after[i].digest by {
        if cached(entries, d.digest) is None && i < after.len() - 1 {
            let k = if entries.len() >= DICT_CACHE_CAPACITY {
                i + 1
            } else {
                i
            };
            assert(after[i] == entries[k]);
        }
    }
}

/// A client never uses a dictionary other than the one that the server announces: the bytes
/// that it uses have the announced digest.
pub proof fn law_used_dictionary_has_the_announced_digest(
    digest: Seq<u8>,
    loaded: Option<DictionaryView>,
    entries: Seq<DictionaryView>,
    r: Resolve,
)
    requires
        authentic(entries),
        loaded matches Some(d) ==> protocol::sha256(d.bytes) == d.digest,
        resolution(digest, loaded, entries, r),
    ensures
        r matches Resolve::Use(bytes) ==> protocol::sha256(bytes@) == digest,
{
    if cached(entries, digest) is Some {
        lemma_cached_is_an_entry(entries, digest);
    }
}

proof fn lemma_cached_is_an_entry(entries: Seq<DictionaryView>, digest: Seq<u8>)
    requires
        cached(entries, digest) is Some,
    ensures
        exists|i: int|
            0 <= i < entries.len() && (#[trigger] entries[i]).digest == digest && cached(
                entries,
                digest,
            ) == Some(entries[i].bytes),
    decreases entries.len(),
{
    if entries.last().digest == digest {
        assert(entries[entries.len() - 1].digest == digest);
    } else {
        let front = entries.drop_last();
        lemma_cached_is_an_entry(front, digest);
        let i = choose|i: int|
            0 <= i < front.len() && (#[trigger] front[i]).digest == digest && cached(front, digest)
                == Some(front[i].bytes);
        assert(entries[i].digest == digest);
    }
}

/// Both ends of a data channel use the same dictionary: the client, once it was given the
/// dictionary of a generation that it did not have, finds for the digest in the command that
/// opens a session exactly the bytes that the server compresses with.
pub proof fn law_both_ends_use_the_pushed_dictionary(
    compression: Option<CompressionCtx>,
    generation: Generation,
    reuse: bool,
    plan: VisitorPlan,
    loaded: Option<DictionaryView>,
    entries: Seq<DictionaryView>,
    r: Resolve,
)
    requires
        compression is Some,
        pool::visitor_plan(compression, Some(generation), reuse, plan),
        generation.dictionary@.digest != protocol::zero_digest(),
        cached(entries, generation.dictionary@.digest) is None,
        distinct(entries),
        entries.len() <= DICT_CACHE_CAPACITY,
        resolution(
            plan.cmd.digest()->0@,
            loaded,
            with_dictionary(entries, generation.dictionary@),
            r,
        ),
    ensures
        plan.cmd.digest() is Some,
        plan.stream.dictionary() == Some(generation.dictionary@),
        r matches Resolve::Use(bytes) && bytes@ == generation.dictionary@.bytes,
{
    law_cache_keeps_the_latest_dictionaries(entries, generation.dictionary@);
}

/// Both ends of a data channel use the same dictionary: a client that is configured with the
/// static dictionary of the server uses it, whatever was pushed under other digests.
pub proof fn law_both_ends_use_the_static_dictionary(
    compression: Option<CompressionCtx>,
    reuse: bool,
    plan: VisitorPlan,
    loaded: Option<DictionaryView>,
    entries: Seq<DictionaryView>,
    r: Resolve,
)
    requires
        compression matches Some(ctx) && config::opt_dictionary(ctx.dict) == loaded,
        pool::visitor_plan(compression, None, reuse, plan),
        loaded matches Some(d) ==> d.digest != protocol::zero_digest() && cached(
            entries,
            d.digest,
        ) is None,
        resolution(plan.cmd.digest()->0@, loaded, entries, r),
    ensures
        plan.cmd.digest() is Some,
        plan.stream.dictionary() == loaded,
        match loaded {
            Some(d) => r matches Resolve::Use(bytes) && bytes@ == d.bytes,
            None => r == (Resolve::Plain { unused: false }),
        },
{
}

/// The client serves a data channel as the server planned it: it speaks frames exactly where
/// the service reuses its channels, and compresses exactly where the server does, with the
/// digest of the dictionary that the server compresses with. A channel that is reused goes on
/// with the same command, and one that is not takes no second session.
#[verifier::rlimit(60)]
pub proof fn law_both_ends_agree_on_a_tcp_session(
    compression: &Option<CompressionCtx>,
    trains: bool,
    generation: &Option<Generation>,
    reuse: bool,
    plan: VisitorPlan,
    served: Result<DataPlan, ClientError>,
    again: Result<Option<Digest>, ClientError>,
)
    requires
        generation matches Some(g) ==> g.wf() && trains,
        trains ==> (compression matches Some(ctx) && ctx.dict is None),
        call_ensures(pool::plan_tcp_visitor, (compression, trains, generation, reuse), plan),
        call_ensures(run_data_channel, (&plan.cmd, ServiceType::Tcp), served),
        call_ensures(next_session, (&plan.cmd, ServiceType::Tcp), again),
    ensures
        (plan.cmd is StartForwardTcpReuse || plan.cmd is StartForwardTcpZstdReuse) <==> reuse,
        plan.stream is Zstd <==> compression is Some,
        served matches Ok(DataPlan::Tcp { zstd, reuse: framed }) && framed == reuse && (match (
            zstd,
            plan.stream,
        ) {
            (None, StreamPlan::Plain) => true,
            (Some(digest), StreamPlan::Zstd { dictionary: Some(d), .. }) => digest@ == d.digest@,
            (Some(digest), StreamPlan::Zstd { dictionary: None, .. }) => forall|i: int|
                0 <= i < 32 ==> digest@[i] == 0,
            _ => false,
        }) && (if reuse {
            again == Ok::<Option<Digest>, ClientError>(zstd)
        } else {
            again == Err::<Option<Digest>, ClientError>(ClientError::NotReusable)
        }),
{
}

/// A visitor's bytes are compressed with the newest dictionary at hand, at the level that goes
/// with it: that of the trained generation once there is one, before that the static
/// dictionary of the service, and none where it has none.
pub proof fn law_a_visitor_gets_the_dictionary_at_hand(
    compression: &Option<CompressionCtx>,
    trains: bool,
    generation: &Option<Generation>,
    reuse: bool,
    plan: VisitorPlan,
)
    requires
        generation matches Some(g) ==> g.wf() && trains,
        trains ==> (compression matches Some(ctx) && ctx.dict is None),
        call_ensures(pool::plan_tcp_visitor, (compression, trains, generation, reuse), plan),
    ensures
        match (plan.stream, *generation, *compression) {
            (StreamPlan::Plain, None, None) => true,
            (StreamPlan::Zstd { dictionary: Some(d), level }, Some(g), _) => d.bytes@
                == g.dictionary.bytes@ && d.digest@ == g.digest@ && level == g.level,
            (StreamPlan::Zstd { dictionary: Some(d), level }, None, Some(ctx)) => ctx.dict matches Some(
                own,
            ) && d.bytes@ == own.bytes@ && d.digest@ == own.digest@ && level == ctx.level,
            (StreamPlan::Zstd { dictionary: None, level }, None, Some(ctx)) => ctx.dict is None
                && level == ctx.level,
            _ => false,
        },
{
}

/// Both ends of the data channel of a UDP service use the same dictionary, for as long as the
/// channel lives: the server compresses with the static dictionary of the service, at its
/// level, and a client that is configured with the same dictionary finds for the digest in the
/// command exactly its bytes, whatever was pushed under other digests. Without a dictionary
/// both use none, and without compression neither compresses.
pub proof fn law_both_ends_use_the_static_dictionary_for_datagrams(
    compression: &Option<CompressionCtx>,
    plan: VisitorPlan,
    served: Result<DataPlan, ClientError>,
    service: &ClientServiceConfig,
    cache: &DictCache,
    r: Resolve,
)
    requires
        call_ensures(pool::plan_udp, (compression,), plan),
        call_ensures(run_data_channel, (&plan.cmd, ServiceType::Udp), served),
        served matches Ok(DataPlan::Udp { zstd: Some(digest) }) ==> call_ensures(
            resolve_client_dict,
            (&digest, service, cache),
            r,
        ),
        compression matches Some(ctx) ==> match (ctx.dict, service.compression_dictionary_loaded) {
            (Some(a), Some(b)) => a.bytes@ == b.bytes@ && a.digest@ == b.digest@ && a.digest@
                != protocol::zero_digest() && cached(cache.entries(), a.digest@) is None,
            (None, None) => true,
            _ => false,
        },
    ensures
        match *compression {
            None => plan.stream is Plain && served matches Ok(DataPlan::Udp { zstd: None }),
            Some(ctx) => served matches Ok(DataPlan::Udp { zstd: Some(_) }) && (
            plan.stream matches StreamPlan::Zstd { dictionary, level } && level == ctx.level && (
            match (ctx.dict, dictionary) {
                (Some(own), Some(used)) => used.bytes@ == own.bytes@ && (
                r matches Resolve::Use(bytes) && bytes@ == own.bytes@),
                (None, None) => r == (Resolve::Plain { unused: false }),
                _ => false,
            })),
        },
{
}

/// What a data channel says that waited in vain.
pub open spec fn timeout_text(name: Seq<char>, wanted: Seq<u8>, has: Seq<u8>) -> Seq<char> {
    "Service "@ + name
        + ": timed out waiting for pushed compression dictionary — server expects digest "@
        + text::hex_text(wanted) + ", client has "@ + text::hex_text(has)
}

/// What a data channel says that waited in vain for its dictionary.
pub fn dict_timeout_message(dict_digest: &Digest, service: &ClientServiceConfig) -> (r: String)
    ensures
        r@ == timeout_text(
            service.name@,
            dict_digest@,
            pool::digest_of(config::opt_dictionary(service.compression_dictionary_loaded)),
        ),
{
    let client_digest = match &service.compression_dictionary_loaded {
        Some(dictionary) => dictionary.digest,
        None => protocol::zero(),
    };
    let mut out = String::new();
    out.push_str("Service ");
    out.push_str(service.name.as_str());
    out.push_str(": timed out waiting for pushed compression dictionary — server expects digest ");
    let wanted = text::hex_encode(dict_digest);
    out.push_str(wanted.as_str());
    out.push_str(", client has ");
    let has = text::hex_encode(&client_digest);
    out.push_str(has.as_str());
    proof {
        assert(out@ =~= timeout_text(service.name@, dict_digest@, client_digest@));
    }
    out
}

/// Why a control channel of the client ends.
#[derive(Debug, PartialEq, Eq)]
pub enum ClientError {
    UnexpectedHello,
    AuthenticationFailed { name: String, ack: Ack },
    HeartbeatTimedOut,
    ExpectTcp,
    ExpectUdp,
    /// A data channel that is reused got a command for a channel of its own.
    NotReusable,
}

impl ClientError {
    /// What the error says.
    pub open spec fn text(self) -> Seq<char> {
        match self {
            ClientError::UnexpectedHello => "Unexpected type of hello"@,
            ClientError::AuthenticationFailed { name, ack } => "Authentication failed: "@ + name@
                + ": "@ + ack.text(),
            ClientError::HeartbeatTimedOut => "Heartbeat timed out"@,
            ClientError::ExpectTcp => "Expect TCP traffic. Please check the configuration."@,
            ClientError::ExpectUdp => "Expect UDP traffic. Please check the configuration."@,
            ClientError::NotReusable =>
                "A reused data channel got a command for a channel of its own"@,
        }
    }

    /// What the error says.
    pub fn message(&self) -> (r: String)
        ensures
            r@ == self.text(),
    {
        let mut out = String::new();
        match self {
            ClientError::UnexpectedHello => out.push_str("Unexpected type of hello"),
            ClientError::AuthenticationFailed { name, ack } => {
                out.push_str("Authentication failed: ");
                out.push_str(name.as_str());
                out.push_str(": ");
                out.push_str(ack.message());
            },
            ClientError::HeartbeatTimedOut => out.push_str("Heartbeat timed out"),
            ClientError::ExpectTcp => out.push_str(
                "Expect TCP traffic. Please check the configuration.",
            ),
            ClientError::ExpectUdp => out.push_str(
                "Expect UDP traffic. Please check the configuration.",
            ),
            ClientError::NotReusable => out.push_str(
                "A reused data channel got a command for a channel of its own",
            ),
        }
        proof {
            assert(out@ =~= self.text());
        }
        out
    }
}

/// The digest by which a server knows a service.
pub fn service_digest(name: &str) -> (r: Digest)
    ensures
        r@ == protocol::sha256(encode_utf8(name@)),
{
    protocol::digest(name.as_bytes())
}

/// The first message on a control channel.
pub fn control_hello(service: Digest) -> (r: Hello)
    ensures
        r == Hello::ControlChannelHello(CURRENT_PROTO_VERSION, service),
{
    Hello::ControlChannelHello(CURRENT_PROTO_VERSION, service)
}

/// The first message on a data channel.
pub fn data_hello(session_key: Digest) -> (r: Hello)
    ensures
        r == Hello::DataChannelHello(CURRENT_PROTO_VERSION, session_key),
{
    Hello::DataChannelHello(CURRENT_PROTO_VERSION, session_key)
}

/// The answer to the server's hello: the session key, which data channels present later.
pub fn answer_challenge(hello: &Hello, token: &str) -> (r: Result<Auth, ClientError>)
    ensures
        match *hello {
            Hello::ControlChannelHello(_, nonce) => r matches Ok(auth) && auth.0@
                == control::session_key_of(token@, nonce@),
            Hello::DataChannelHello(_, _) => r == Err::<Auth, ClientError>(
                ClientError::UnexpectedHello,
            ),
        },
{
    match hello {
        Hello::ControlChannelHello(_, nonce) => Ok(Auth(control::session_key(token, nonce))),
        Hello::DataChannelHello(_, _) => Err(ClientError::UnexpectedHello),
    }
}

/// Takes the server's verdict.
pub fn on_ack(ack: Ack, name: &String) -> (r: Result<(), ClientError>)
    ensures
        match r {
            Ok(()) => ack == Ack::Accepted,
            Err(e) => ack != Ack::Accepted && (e matches ClientError::AuthenticationFailed {
                name: n,
                ack: a,
            } && n@ == name@ && a == ack),
        },
{
    match ack {
        Ack::Accepted => Ok(()),
        _ => Err(ClientError::AuthenticationFailed { name: name.clone(), ack }),
    }
}

/// What happens to a control channel of the client.
pub enum ClientEvent {
    Command(ControlChannelCmd),
    /// No command came for the heartbeat timeout.
    Silence,
    Shutdown,
}

/// What is done about it.
pub enum ClientAction {
    OpenDataChannel,
    UpdateDictionary { digest: Digest, dictionary: Vec<u8> },
    Wait,
    Fail(ClientError),
    Stop,
}

/// Whether silence of the server is noticed at all.
pub fn heartbeat_watched(heartbeat_timeout: u64) -> (r: bool)
    ensures
        r == (heartbeat_timeout != 0),
{
    heartbeat_timeout != 0
}

/// Decides what an event asks a control channel of the client for.
pub fn on_client_event(heartbeat_timeout: u64, event: ClientEvent) -> (r: ClientAction)
    ensures
        match event {
            ClientEvent::Command(cmd) => match cmd {
                ControlChannelCmd::CreateDataChannel => r is OpenDataChannel,
                ControlChannelCmd::HeartBeat => r is Wait,
                ControlChannelCmd::UpdateCompressionDict { digest, dictionary } => r
                    == (ClientAction::UpdateDictionary { digest, dictionary }),
            },
            ClientEvent::Silence => if heartbeat_timeout != 0 {
                r == ClientAction::Fail(ClientError::HeartbeatTimedOut)
            } else {
                r is Wait
            },
            ClientEvent::Shutdown => r is Stop,
        },
{
    match event {
        ClientEvent::Command(cmd) => match cmd {
            ControlChannelCmd::CreateDataChannel => ClientAction::OpenDataChannel,
            ControlChannelCmd::HeartBeat => ClientAction::Wait,
            ControlChannelCmd::UpdateCompressionDict { digest, dictionary } =>
            ClientAction::UpdateDictionary { digest, dictionary },
        },
        ClientEvent::Silence => {
            if heartbeat_timeout != 0 {
                ClientAction::Fail(ClientError::HeartbeatTimedOut)
            } else {
                ClientAction::Wait
            }
        },
        ClientEvent::Shutdown => ClientAction::Stop,
    }
}

/// How the traffic of a data channel is forwarded.
#[derive(Clone, Copy, Debug)]
pub enum DataPlan {
    /// To a TCP service, compressed where a digest is given, with frames where the channel
    /// can be reused.
    Tcp { zstd: Option<Digest>, reuse: bool },
    /// To a UDP service, compressed where a digest is given.
    Udp { zstd: Option<Digest> },
}

/// Decides how a data channel is forwarded.
pub fn run_data_channel(cmd: &DataChannelCmd, service_type: ServiceType) -> (r: Result<
    DataPlan,
    ClientError,
>)
    ensures
        r == (match *cmd {
            DataChannelCmd::StartForwardUdp => if service_type == ServiceType::Udp {
                Ok(DataPlan::Udp { zstd: None })
            } else {
                Err(ClientError::ExpectUdp)
            },
            DataChannelCmd::StartForwardUdpZstd { dict_digest } => if service_type
                == ServiceType::Udp {
                Ok(DataPlan::Udp { zstd: Some(dict_digest) })
            } else {
                Err(ClientError::ExpectUdp)
            },
            DataChannelCmd::StartForwardTcp => tcp_plan(service_type, None, false),
            DataChannelCmd::StartForwardTcpReuse => tcp_plan(service_type, None, true),
            DataChannelCmd::StartForwardTcpZstd { dict_digest } => tcp_plan(
                service_type,
                Some(dict_digest),
                false,
            ),
            DataChannelCmd::StartForwardTcpZstdReuse { dict_digest } => tcp_plan(
                service_type,
                Some(dict_digest),
                true,
            ),
        }),
{
    let udp = service_type == ServiceType::Udp;
    match cmd {
        DataChannelCmd::StartForwardUdp => if udp {
            Ok(DataPlan::Udp { zstd: None })
        } else {
            Err(ClientError::ExpectUdp)
        },
        DataChannelCmd::StartForwardUdpZstd { dict_digest } => if udp {
            Ok(DataPlan::Udp { zstd: Some(*dict_digest) })
        } else {
            Err(ClientError::ExpectUdp)
        },
        DataChannelCmd::StartForwardTcp => if udp {
            Err(ClientError::ExpectTcp)
        } else {
            Ok(DataPlan::Tcp { zstd: None, reuse: false })
        },
        DataChannelCmd::StartForwardTcpReuse => if udp {
            Err(ClientError::ExpectTcp)
        } else {
            Ok(DataPlan::Tcp { zstd: None, reuse: true })
        },
        DataChannelCmd::StartForwardTcpZstd { dict_digest } => if udp {
            Err(ClientError::ExpectTcp)
        } else {
            Ok(DataPlan::Tcp { zstd: Some(*dict_digest), reuse: false })
        },
        DataChannelCmd::StartForwardTcpZstdReuse { dict_digest } => if udp {
            Err(ClientError::ExpectTcp)
        } else {
            Ok(DataPlan::Tcp { zstd: Some(*dict_digest), reuse: true })
        },
    }
}

/// Decides how the next session of a reused data channel is forwarded: compressed where a
/// digest is given. Only the commands for channels that are reused open one.
pub fn next_session(cmd: &DataChannelCmd, service_type: ServiceType) -> (r: Result<
    Option<Digest>,
    ClientError,
>)
    ensures
        r == (match *cmd {
            DataChannelCmd::StartForwardTcpReuse => if service_type == ServiceType::Udp {
                Err(ClientError::ExpectTcp)
            } else {
                Ok(None::<Digest>)
            },
            DataChannelCmd::StartForwardTcpZstdReuse { dict_digest } => if service_type
                == ServiceType::Udp {
                Err(ClientError::ExpectTcp)
            } else {
                Ok(Some(dict_digest))
            },
            DataChannelCmd::StartForwardTcp
            | DataChannelCmd::StartForwardTcpZstd { .. } => if service_type == ServiceType::Udp {
                Err(ClientError::ExpectTcp)
            } else {
                Err(ClientError::NotReusable)
            },
            DataChannelCmd::StartForwardUdp
            | DataChannelCmd::StartForwardUdpZstd { .. } => if service_type == ServiceType::Udp {
                Err(ClientError::NotReusable)
            } else {
                Err(ClientError::ExpectUdp)
            },
        }),
{
    match run_data_channel(cmd, service_type) {
        Ok(DataPlan::Tcp { zstd, reuse }) => if reuse {
            Ok(zstd)
        } else {
            Err(ClientError::NotReusable)
        },
        Ok(DataPlan::Udp { .. }) => Err(ClientError::NotReusable),
        Err(e) => Err(e),
    }
}

/// The plan for TCP traffic.
pub open spec fn tcp_plan(service_type: ServiceType, zstd: Option<Digest>, reuse: bool) -> Result<
    DataPlan,
    ClientError,
> {
    if service_type == ServiceType::Tcp {
        Ok(DataPlan::Tcp { zstd, reuse })
    } else {
        Err(ClientError::ExpectTcp)
    }
}

/// What follows when a control channel ended with an error.
#[derive(Clone, Copy, PartialEq, Eq, Debug, Structural)]
pub enum Retry {
    /// The service was shut down.
    Stop,
    /// Reconnect after a delay; whether the delay starts anew.
    Again { reset: bool },
}

/// Decides what follows when a control channel that was up for `ran_ms` milliseconds ended
/// with an error.
pub fn after_failure(shut_down: bool, ran_ms: u64) -> (r: Retry)
    ensures
        r == (if shut_down {
            Retry::Stop
        } else {
            Retry::Again { reset: ran_ms > STABLE_AFTER_MS }
        }),
{
    if shut_down {
        Retry::Stop
    } else {
        Retry::Again { reset: ran_ms > STABLE_AFTER_MS }
    }
}

/// A service that was added or changed, or one that is gone.
pub enum ClientServiceChange {
    Add(ClientServiceConfig),
    Delete(String),
}

/// The control channels of a client, by service. `H` is the handle of one.
pub struct Client<H> {
    pub service_handles: Table<String, Vec<H>>,
}

impl<H> Client<H> {
    pub fn new() -> (r: Self)
        ensures
            r.service_handles.wf(),
            r.service_handles.entries().len() == 0,
    {
        Client { service_handles: Table::new() }
    }

    /// The service runs on these control channels, one to each server. Those that it had
    /// before are returned.
    pub fn add_service(&mut self, name: String, handles: Vec<H>) -> (r: Option<Vec<H>>)
        requires
            old(self).service_handles.wf(),
        ensures
            final(self).service_handles.wf(),
            r == old(self).service_handles.lookup(name@),
            final(self).service_handles.lookup(name@) == Some(handles),
            forall|id: Seq<char>| id != name@ ==> final(self).service_handles.lookup(id)
                == old(self).service_handles.lookup(id),
    {
        self.service_handles.insert(name, handles)
    }

    /// The service is gone. Its control channels are to be shut down.
    pub fn delete_service(&mut self, name: &String) -> (r: Option<Vec<H>>)
        requires
            old(self).service_handles.wf(),
        ensures
            final(self).service_handles.wf(),
            r == old(self).service_handles.lookup(name@),
            final(self).service_handles.lookup(name@) is None,
            forall|id: Seq<char>| id != name@ ==> final(self).service_handles.lookup(id)
                == old(self).service_handles.lookup(id),
    {
        self.service_handles.remove(name)
    }
}

/// The sockets that stand for visitors, by the address of the visitor. `H` is the way to a
/// socket.
pub struct UdpPorts<H> {
    pub ports: Table<SocketAddr, H>,
}

impl<H> UdpPorts<H> {
    pub fn new() -> (r: Self)
        ensures
            r.ports.wf(),
            r.ports.entries().len() == 0,
    {
        UdpPorts { ports: Table::new() }
    }

    /// The way to the visitor's socket. `None`: the visitor was not seen for a while, and a
    /// socket is to be opened for it.
    pub fn route(&self, from: &SocketAddr) -> (r: Option<&H>)
        requires
            self.ports.wf(),
        ensures
            r == (match self.ports.lookup(*from) {
                Some(h) => Some(&h),
                None => None::<&H>,
            }),
    {
        self.ports.get(from)
    }

    /// A socket was opened for a visitor.
    pub fn opened(&mut self, from: SocketAddr, handle: H)
        requires
            old(self).ports.wf(),
        ensures
            final(self).ports.wf(),
            final(self).ports.lookup(from) == Some(handle),
            forall|id: SocketAddr| id != from ==> final(self).ports.lookup(id) == old(
                self,
            ).ports.lookup(id),
    {
        let _ = self.ports.insert(from, handle);
    }

    /// The visitor's socket was closed.
    pub fn closed(&mut self, from: &SocketAddr)
        requires
            old(self).ports.wf(),
        ensures
            final(self).ports.wf(),
            final(self).ports.lookup(*from) is None,
            forall|id: SocketAddr| id != *from ==> final(self).ports.lookup(id) == old(
                self,
            ).ports.lookup(id),
    {
        let _ = self.ports.remove(from);
    }
}

/// What happens to the socket that stands for a visitor.
pub enum ForwarderEvent {
    /// A datagram for the service, or there will be none any more.
    FromServer(Option<Vec<u8>>),
    /// A datagram of the service, or the socket failed.
    FromService(Option<Vec<u8>>),
    /// There was no traffic for a while.
    Idle,
    /// A datagram could not be passed on.
    SendFailed,
}

/// What is done about it.
pub enum ForwarderAction {
    /// Send the datagram to the service.
    ToService(Vec<u8>),
    /// Send the datagram to the server.
    ToServer(UdpTraffic),
    /// Close the socket and forget it.
    Close,
    /// Close the socket. It is not forgotten.
    Abort,
}

/// Decides what an event asks the socket of the visitor `from` for.
pub fn run_udp_forwarder(from: SocketAddr, event: ForwarderEvent) -> (r: ForwarderAction)
    ensures
        match event {
            ForwarderEvent::FromServer(Some(data)) => r == ForwarderAction::ToService(data),
            ForwarderEvent::FromServer(None) => r is Close,
            ForwarderEvent::FromService(Some(data)) => r matches ForwarderAction::ToServer(t)
                && t.from == from && buffers::bytes_contents(t.data) == data@,
            ForwarderEvent::FromService(None) => r is Close,
            ForwarderEvent::Idle => r is Close,
            ForwarderEvent::SendFailed => r is Abort,
        },
{
    match event {
        ForwarderEvent::FromServer(Some(data)) => ForwarderAction::ToService(data),
        ForwarderEvent::FromServer(None) => ForwarderAction::Close,
        ForwarderEvent::FromService(Some(data)) => ForwarderAction::ToServer(
            UdpTraffic::new(from, data.as_slice()),
        ),
        ForwarderEvent::FromService(None) => ForwarderAction::Close,
        ForwarderEvent::Idle => ForwarderAction::Close,
        ForwarderEvent::SendFailed => ForwarderAction::Abort,
    }
}

/// A control channel comes up exactly with the right token. The server finds the service by
/// the digest of its name, which the hello of the client carries. Where the tokens are the
/// same, the server accepts the client's answer to its nonce, the client takes the verdict, and
/// both sides hold the same key, which a data channel presents later to be told from a control
/// channel. Where the answer is not the one for the token, the client learns that it failed.
#[verifier::rlimit(60)]
pub proof fn law_a_handshake_goes_by_the_token(
    name: &str,
    service: Digest,
    hello: Hello,
    nonce: Digest,
    challenge: Hello,
    token: &str,
    answer: Result<Auth, ClientError>,
    config: &config::ServerServiceConfig,
    verdict: Result<Digest, control::Refusal>,
)
    requires
        config.token is Some,
        call_ensures(service_digest, (name,), service),
        call_ensures(control_hello, (service,), hello),
        call_ensures(control::challenge_with, (nonce,), challenge),
        call_ensures(answer_challenge, (&challenge, token), answer),
        answer matches Ok(auth) ==> call_ensures(
            control::authenticate,
            (config, &nonce, &auth),
            verdict,
        ),
    ensures
        service@ == protocol::sha256(encode_utf8(name@)),
        forall|c: Connection| #[trigger]
            call_ensures(control::handle_connection, (&hello,), c) ==> c == Connection::Control(
                service,
            ),
        answer matches Ok(auth) && auth.0@ == protocol::sha256(encode_utf8(token@) + nonce@),
        token@ == config.token->0@ ==> (verdict matches Ok(key) && key@ == answer->Ok_0.0@),
        protocol::sha256(encode_utf8(token@) + nonce@) != protocol::sha256(
            encode_utf8(config.token->0@) + nonce@,
        ) ==> (verdict matches Err(refusal) && refusal.ack == Ack::AuthFailed),
        verdict matches Ok(key) ==> forall|h: Hello, c: Connection|
            #![trigger call_ensures(data_hello, (key,), h), call_ensures(
                control::handle_connection,
                (&h,),
                c,
            )]
            call_ensures(data_hello, (key,), h) && call_ensures(
                control::handle_connection,
                (&h,),
                c,
            ) ==> c == Connection::Data(key),
{
}

/// A client goes on exactly where the server accepted it.
pub proof fn law_only_an_accepted_client_goes_on(
    ack: Ack,
    name: &String,
    r: Result<(), ClientError>,
)
    requires
        call_ensures(on_ack, (ack, name), r),
    ensures
        r is Ok <==> ack == Ack::Accepted,
        r matches Err(e) ==> (e matches ClientError::AuthenticationFailed { name: n, ack: a }
            && n@ == name@ && a == ack),
{
}

/// What the server sends on a control channel makes the client do what the server wants. A
/// request for a data channel that is not too late opens one, and one that is too late asks for
/// nothing. A heartbeat asks for nothing, and without an interval there is none. A new
/// generation hands the client exactly its dictionary, with its digest.
#[verifier::rlimit(60)]
pub proof fn law_the_client_does_what_the_server_asks(
    c: control::ControlChannel,
    event: control::ControlEvent,
    action: control::ControlAction,
    heartbeat_timeout: u64,
    r: ClientAction,
)
    requires
        control::control_decision(c, event, action),
        action matches control::ControlAction::Send(cmd) ==> call_ensures(
            on_client_event,
            (heartbeat_timeout, ClientEvent::Command(cmd)),
            r,
        ),
    ensures
        match event {
            control::ControlEvent::Request { deadline, now } => if deadline matches Some(d) && d
                <= now {
                action is Wait
            } else {
                action is Send && r is OpenDataChannel
            },
            control::ControlEvent::Heartbeat => if c.heartbeat_interval == 0 {
                action is Wait
            } else {
                action is Send && r is Wait
            },
            control::ControlEvent::Started(Some(g)) => if c.watching {
                action is Send && (r matches ClientAction::UpdateDictionary { digest, dictionary }
                    && digest@ == g.digest@ && dictionary@ == g.dictionary.bytes@)
            } else {
                action is Wait
            },
            control::ControlEvent::Generation(Some(g)) => if c.watching {
                action is Send && (r matches ClientAction::UpdateDictionary { digest, dictionary }
                    && digest@ == g.digest@ && dictionary@ == g.dictionary.bytes@)
            } else {
                action is Wait
            },
            control::ControlEvent::RequestsClosed => action is Stop,
            control::ControlEvent::WriteFailed => action is Stop,
            control::ControlEvent::Shutdown => action is Stop,
            _ => action is Wait,
        },
{
}

/// A client gives up a silent server exactly where it watches for heartbeats, and stops when it
/// is told to.
pub proof fn law_silence_counts_where_it_is_watched(
    heartbeat_timeout: u64,
    watched: bool,
    r: ClientAction,
    stop: ClientAction,
)
    requires
        call_ensures(heartbeat_watched, (heartbeat_timeout,), watched),
        call_ensures(on_client_event, (heartbeat_timeout, ClientEvent::Silence), r),
        call_ensures(on_client_event, (heartbeat_timeout, ClientEvent::Shutdown), stop),
    ensures
        watched <==> heartbeat_timeout > 0,
        watched ==> r == ClientAction::Fail(ClientError::HeartbeatTimedOut),
        !watched ==> r is Wait,
        stop is Stop,
{
}

/// A visitor of a service is served as the service is configured: over frames exactly where it
/// reuses its channels, and compressed exactly where it is compressed, at its level or else at
/// level 19. A client is asked for as many channels at once as the pool of its kind holds.
#[verifier::rlimit(60)]
pub proof fn law_a_service_is_served_as_configured(
    service: &config::ServerServiceConfig,
    server: &config::ServerConfig,
    plan: control::ChannelPlan,
    visitor: VisitorPlan,
    served: Result<DataPlan, ClientError>,
)
    requires
        call_ensures(control::plan_control_channel, (service, server), plan),
        call_ensures(
            pool::plan_tcp_visitor,
            (&plan.compression, false, &None::<Generation>, plan.reuse),
            visitor,
        ),
        call_ensures(run_data_channel, (&visitor.cmd, ServiceType::Tcp), served),
    ensures
        plan.preopen == (if service.service_type == ServiceType::Udp {
            server.udp_pool_size
        } else {
            server.tcp_pool_size
        }),
        plan.heartbeat_interval == server.heartbeat_interval,
        service.connection_reuse_max_idle matches Some(n) ==> plan.max_idle == n,
        service.connection_reuse_max_idle is None ==> plan.max_idle == 64,
        served matches Ok(DataPlan::Tcp { zstd, reuse }) && reuse == service.connection_reuse && (
        zstd is Some <==> service.compression is Some),
        visitor.stream is Zstd <==> service.compression is Some,
        visitor.stream matches StreamPlan::Zstd { dictionary, level } ==> level == (
        match service.compression_level {
            Some(level) => level,
            None => 19i32,
        }) && (match (service.compression_dictionary_loaded, dictionary) {
            (Some(own), Some(used)) => used.bytes@ == own.bytes@ && used.digest@ == own.digest@,
            (None, None) => true,
            _ => false,
        }),
{
}

/// A datagram goes through the tunnel as it is, and back to the visitor that it came from. What
/// the server sends to the client for a datagram of a visitor holds the payload and the
/// visitor's address, and the socket that stands for the visitor hands the payload on. What the
/// service answers goes back under the address of that visitor. Its payload is counted, and
/// nothing else.
#[verifier::rlimit(60)]
pub proof fn law_datagrams_go_through_unchanged(
    compression: &Option<CompressionCtx>,
    from: SocketAddr,
    data: Vec<u8>,
    sent: pool::UdpPoolAction,
    out: ForwarderAction,
    answer: Vec<u8>,
    back: ForwarderAction,
    delivered: pool::UdpPoolAction,
)
    requires
        data@.len() <= u16::MAX,
        call_ensures(
            pool::on_udp_event,
            (compression, pool::UdpPoolEvent::Datagram { from, data }),
            sent,
        ),
        call_ensures(
            run_udp_forwarder,
            (from, ForwarderEvent::FromServer(Some(data))),
            out,
        ),
        call_ensures(
            run_udp_forwarder,
            (from, ForwarderEvent::FromService(Some(answer))),
            back,
        ),
        back matches ForwarderAction::ToServer(t) ==> call_ensures(
            pool::on_udp_event,
            (compression, pool::UdpPoolEvent::Traffic(t)),
            delivered,
        ),
    ensures
        sent matches pool::UdpPoolAction::ToClient { bytes, counted } && counted == data@.len()
            && forall|r: Result<protocol::Parsed<UdpTraffic>, protocol::ProtocolError>|
            #[trigger] protocol::udp_outcome(bytes@.skip(1), bytes@[0], r) ==> (r matches Ok(
                protocol::Parsed::Done { value, used },
            ) && value.from == from && buffers::bytes_contents(value.data) == data@),
        out matches ForwarderAction::ToService(payload) && payload@ == data@,
        delivered matches pool::UdpPoolAction::ToVisitor { traffic, counted } && traffic.from == from
            && buffers::bytes_contents(traffic.data) == answer@ && counted == answer@.len(),
{
    let bytes = sent->bytes;
    assert forall|r: Result<protocol::Parsed<UdpTraffic>, protocol::ProtocolError>|
        #[trigger] protocol::udp_outcome(bytes@.skip(1), bytes@[0], r) implies (r matches Ok(
        protocol::Parsed::Done { value, used },
    ) && value.from == from && buffers::bytes_contents(value.data) == data@) by {
        let none = Seq::<u8>::empty();
        assert(protocol::udp_encoding(from, data@) + none =~= bytes@);
        protocol::law_udp_round_trip(from, data@, none, r);
    }
}

/// A client takes a pushed dictionary exactly if its digest is right, and then finds it, unless
/// it had one under that digest; otherwise it keeps what it had.
pub proof fn law_only_authentic_dictionaries_are_taken(digest: Digest, dictionary: Vec<u8>)
    ensures
        forall|cache: &mut DictCache, kept: bool|
            #[trigger] call_ensures(
                handle_compression_dict_update,
                (cache, digest, dictionary),
                kept,
            ) ==> {
                &&& kept <==> protocol::sha256(dictionary@) == digest@
                &&& !kept ==> (*final(cache)).entries() == (*cache).entries()
                &&& kept && distinct((*cache).entries()) && (*cache).entries().len() <= 4 && cached(
                    (*cache).entries(),
                    digest@,
                ) is None ==> cached((*final(cache)).entries(), digest@) == Some(dictionary@)
            },
{
    assert forall|cache: &mut DictCache, kept: bool|
        #[trigger] call_ensures(handle_compression_dict_update, (cache, digest, dictionary), kept)
            && kept && distinct((*cache).entries()) && (*cache).entries().len() <= 4 && cached(
            (*cache).entries(),
            digest@,
        ) is None implies cached((*final(cache)).entries(), digest@) == Some(dictionary@) by {
        law_cache_keeps_the_latest_dictionaries(
            (*cache).entries(),
            DictionaryView { bytes: dictionary@, digest: digest@ },
        );
    }
}

/// The data channel of a UDP service is opened as the service is configured: compressed exactly
/// where it is compressed, with its static dictionary, which the command announces. Where there
/// is no channel nothing is sent, and the pool ends on a failure or a shutdown.
pub proof fn law_a_udp_channel_is_opened_as_configured(
    compression: &Option<CompressionCtx>,
    start: pool::UdpPoolAction,
    without: pool::UdpPoolAction,
    failed: pool::UdpPoolAction,
    stopped: pool::UdpPoolAction,
)
    requires
        call_ensures(pool::on_udp_event, (compression, pool::UdpPoolEvent::Channel(true)), start),
        call_ensures(
            pool::on_udp_event,
            (compression, pool::UdpPoolEvent::Channel(false)),
            without,
        ),
        call_ensures(pool::on_udp_event, (compression, pool::UdpPoolEvent::Failed), failed),
        call_ensures(pool::on_udp_event, (compression, pool::UdpPoolEvent::Shutdown), stopped),
    ensures
        start matches pool::UdpPoolAction::Start(plan) && (match (
            *compression,
            plan.stream,
            plan.cmd,
        ) {
            (None, StreamPlan::Plain, DataChannelCmd::StartForwardUdp) => true,
            (
                Some(ctx),
                StreamPlan::Zstd { dictionary, level },
                DataChannelCmd::StartForwardUdpZstd { dict_digest },
            ) => level == ctx.level && (match (ctx.dict, dictionary) {
                (Some(own), Some(used)) => used.bytes@ == own.bytes@ && dict_digest@ == own.digest@,
                (None, None) => forall|i: int| 0 <= i < 32 ==> dict_digest@[i] == 0,
                _ => false,
            }),
            _ => false,
        }),
        without is NoChannel,
        failed is Stop,
        stopped is Stop,
{
}

/// A control channel that fails is opened again, unless the service was shut down; and where it
/// was up for more than three seconds, the delay before that starts anew.
pub proof fn law_a_failed_channel_is_opened_again(shut_down: bool, ran_ms: u64, r: Retry)
    requires
        call_ensures(after_failure, (shut_down, ran_ms), r),
    ensures
        r == Retry::Stop <==> shut_down,
        r matches Retry::Again { reset } ==> (reset <==> ran_ms > 3000),
{
}

} // verus!
