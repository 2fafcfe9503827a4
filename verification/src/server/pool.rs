//! Data channels and visitors: which command opens a session, how its bytes are
//! compressed, and which visitor gets which channel.
use crate::buffers;
use crate::config;
use crate::config::{DictionaryView, LoadedDictionary, ServerServiceConfig};
use crate::constants::DEFAULT_ZSTD_LEVEL;
use crate::protocol;
use crate::protocol::{DataChannelCmd, Digest, SocketAddr, UdpTraffic};
use crate::server::state;
use crate::server::state::Generation;
use crate::wire;
use std::collections::VecDeque;
use vstd::prelude::*;

verus! {

/// How the traffic of a service is compressed: the static dictionary, if there is one, and
/// the level of the encoder.
pub struct CompressionCtx {
    pub dict: Option<LoadedDictionary>,
    pub level: i32,
}

/// The digest of a dictionary; all zeros stand for none.
pub open spec fn digest_of(dict: Option<DictionaryView>) -> Seq<u8> {
    match dict {
        Some(d) => d.digest,
        None => protocol::zero_digest(),
    }
}

impl CompressionCtx {
    /// The context of a service that is compressed.
    pub fn for_service(service: &ServerServiceConfig) -> (r: Option<CompressionCtx>)
        ensures
            r is Some <==> service.compression is Some,
            r matches Some(ctx) ==> config::opt_dictionary(ctx.dict) == config::opt_dictionary(
                service.compression_dictionary_loaded,
            ) && ctx.level == state::service_level(service@),
    {
        match service.compression {
            None => None,
            Some(_) => Some(
                CompressionCtx {
                    dict: config::clone_dictionary(&service.compression_dictionary_loaded),
                    level: match service.compression_level {
                        Some(level) => level,
                        None => DEFAULT_ZSTD_LEVEL,
                    },
                },
            ),
        }
    }

    /// The digest that a command announces.
    pub fn digest(&self) -> (r: Digest)
        ensures
            r@ == digest_of(config::opt_dictionary(self.dict)),
    {
        match &self.dict {
            Some(dictionary) => dictionary.digest,
            None => protocol::zero(),
        }
    }
}

/// The command that starts TCP forwarding.
pub fn tcp_cmd(compression: &Option<CompressionCtx>) -> (r: DataChannelCmd)
    ensures
        match compression {
            None => r == DataChannelCmd::StartForwardTcp,
            Some(ctx) => r matches DataChannelCmd::StartForwardTcpZstd { dict_digest }
                && dict_digest@ == digest_of(config::opt_dictionary(ctx.dict)),
        },
{
    match compression {
        None => DataChannelCmd::StartForwardTcp,
        Some(ctx) => DataChannelCmd::StartForwardTcpZstd { dict_digest: ctx.digest() },
    }
}

/// The command that starts TCP forwarding on a channel that can be reused.
pub fn tcp_reuse_cmd(compression: &Option<CompressionCtx>) -> (r: DataChannelCmd)
    ensures
        match compression {
            None => r == DataChannelCmd::StartForwardTcpReuse,
            Some(ctx) => r matches DataChannelCmd::StartForwardTcpZstdReuse { dict_digest }
                && dict_digest@ == digest_of(config::opt_dictionary(ctx.dict)),
        },
{
    match compression {
        None => DataChannelCmd::StartForwardTcpReuse,
        Some(ctx) => DataChannelCmd::StartForwardTcpZstdReuse { dict_digest: ctx.digest() },
    }
}

/// The command that starts UDP forwarding.
pub fn udp_cmd(compression: &Option<CompressionCtx>) -> (r: DataChannelCmd)
    ensures
        match compression {
            None => r == DataChannelCmd::StartForwardUdp,
            Some(ctx) => r matches DataChannelCmd::StartForwardUdpZstd { dict_digest }
                && dict_digest@ == digest_of(config::opt_dictionary(ctx.dict)),
        },
{
    match compression {
        None => DataChannelCmd::StartForwardUdp,
        Some(ctx) => DataChannelCmd::StartForwardUdpZstd { dict_digest: ctx.digest() },
    }
}

/// How the bytes of a data channel are wrapped.
pub enum StreamPlan {
    Plain,
    Zstd { dictionary: Option<LoadedDictionary>, level: i32 },
}

impl StreamPlan {
    /// The dictionary in use.
    pub open spec fn dictionary(self) -> Option<DictionaryView> {
        match self {
            StreamPlan::Plain => None,
            StreamPlan::Zstd { dictionary, .. } => config::opt_dictionary(dictionary),
        }
    }
}

/// Decides how a stream is wrapped.
pub fn wrap_stream(
    compression_enabled: bool,
    dictionary: &Option<LoadedDictionary>,
    level: i32,
) -> (r: StreamPlan)
    ensures
        !compression_enabled ==> r is Plain,
        compression_enabled ==> (r matches StreamPlan::Zstd { dictionary: d, level: l }
            && config::opt_dictionary(d) == config::opt_dictionary(*dictionary) && l == level),
{
    if compression_enabled {
        StreamPlan::Zstd { dictionary: config::clone_dictionary(dictionary), level }
    } else {
        StreamPlan::Plain
    }
}

/// What a visitor's session looks like: the command that opens it, and how its bytes are
/// wrapped.
pub struct VisitorPlan {
    pub cmd: DataChannelCmd,
    pub stream: StreamPlan,
}

/// The level that a session uses.
pub open spec fn session_level(
    compression: Option<CompressionCtx>,
    generation: Option<Generation>,
) -> i32 {
    match generation {
        Some(g) => g.level,
        None => match compression {
            Some(ctx) => ctx.level,
            None => DEFAULT_ZSTD_LEVEL,
        },
    }
}

/// The session of a TCP visitor: plain where the service is not compressed; else with the
/// generation, or else with the static dictionary, or with none. The command announces the
/// dictionary that the stream uses.
pub open spec fn visitor_plan(
    compression: Option<CompressionCtx>,
    generation: Option<Generation>,
    reuse: bool,
    plan: VisitorPlan,
) -> bool {
    &&& plan.stream is Plain <==> compression is None
    &&& plan.stream matches StreamPlan::Zstd { dictionary, level } ==> level == session_level(
        compression,
        generation,
    ) && config::opt_dictionary(dictionary) == (match generation {
        Some(g) => Some(g.dictionary@),
        None => config::opt_dictionary(compression->0.dict),
    })
    &&& match plan.cmd {
        DataChannelCmd::StartForwardTcp => compression is None && !reuse,
        DataChannelCmd::StartForwardTcpReuse => compression is None && reuse,
        DataChannelCmd::StartForwardTcpZstd { dict_digest } => compression is Some && !reuse
            && dict_digest@ == digest_of(plan.stream.dictionary()),
        DataChannelCmd::StartForwardTcpZstdReuse { dict_digest } => compression is Some && reuse
            && dict_digest@ == digest_of(plan.stream.dictionary()),
        _ => false,
    }
}

/// Where neither compression nor reuse is on, a data channel starts with the command that
/// every client knows, and its bytes are forwarded as they are.
pub proof fn law_plain_services_use_the_plain_command(plan: VisitorPlan)
    requires
        visitor_plan(None, None, false, plan),
    ensures
        plan.cmd.encoding() == wire::u32_le(0),
        plan.stream is Plain,
{
}

/// Plans the session of a TCP visitor. `trains` says whether dictionaries are trained for
/// the service, and `generation` is the trained one at the time when the visitor came: the
/// command and the dictionary come from one and the same snapshot.
pub fn plan_tcp_visitor(
    compression: &Option<CompressionCtx>,
    trains: bool,
    generation: &Option<Generation>,
    reuse: bool,
) -> (r: VisitorPlan)
    requires
        generation is Some ==> generation->0.wf() && trains,
        trains ==> compression is Some && compression->0.dict is None,
    ensures
        visitor_plan(*compression, *generation, reuse, r),
{
    if let Some(g) = generation {
        let cmd = if reuse {
            DataChannelCmd::StartForwardTcpZstdReuse { dict_digest: g.digest }
        } else {
            DataChannelCmd::StartForwardTcpZstd { dict_digest: g.digest }
        };
        let dictionary = Some(g.dictionary.clone());
        return VisitorPlan { cmd, stream: wrap_stream(true, &dictionary, g.level) };
    }
    let cmd = if reuse {
        tcp_reuse_cmd(compression)
    } else {
        tcp_cmd(compression)
    };
    let stream = match compression {
        Some(ctx) => wrap_stream(true, &ctx.dict, ctx.level),
        None => wrap_stream(false, &None, DEFAULT_ZSTD_LEVEL),
    };
    VisitorPlan { cmd, stream }
}

/// The session of a UDP service: plain where the service is not compressed, else with the
/// static dictionary or with none, which the command announces.
pub open spec fn udp_plan(compression: Option<CompressionCtx>, plan: VisitorPlan) -> bool {
    &&& plan.stream is Plain <==> compression is None
    &&& plan.stream matches StreamPlan::Zstd { dictionary, level } ==> level
        == compression->0.level && config::opt_dictionary(dictionary) == config::opt_dictionary(
        compression->0.dict,
    )
    &&& match plan.cmd {
        DataChannelCmd::StartForwardUdp => compression is None,
        DataChannelCmd::StartForwardUdpZstd { dict_digest } => compression is Some && dict_digest@
            == digest_of(plan.stream.dictionary()),
        _ => false,
    }
}

/// Plans the session of a UDP service, which uses one data channel for all visitors.
pub fn plan_udp(compression: &Option<CompressionCtx>) -> (r: VisitorPlan)
    ensures
        udp_plan(*compression, r),
{
    let cmd = udp_cmd(compression);
    let stream = match compression {
        Some(ctx) => wrap_stream(true, &ctx.dict, ctx.level),
        None => wrap_stream(false, &None, DEFAULT_ZSTD_LEVEL),
    };
    VisitorPlan { cmd, stream }
}

/// Visitors that wait for a channel, at most.
pub const VISITOR_QUEUE_SIZE: usize = 2048;

/// Milliseconds that a visitor waits for a channel, from acceptance until the start
/// command is written.
pub const PAIRING_DEADLINE_MS: u64 = 10000;

/// A visitor that waits for a channel.
#[derive(Clone, Copy, PartialEq, Eq, Debug)]
pub struct Waiting {
    pub visitor: u64,
    pub deadline: u64,
}

/// What becomes of a new visitor.
#[derive(Clone, Copy, PartialEq, Eq, Debug, Structural)]
pub enum Arrival {
    /// Too many visitors are waiting.
    Rejected,
    /// The visitor waits; whether the client is to be asked for a new channel.
    Queued { request_channel: bool },
}

/// What the pool does next.
#[derive(Clone, Copy, PartialEq, Eq, Debug)]
pub enum PairStep {
    /// No visitor or no channel is there.
    Wait,
    /// The visitor waited too long, and is dropped.
    Expired { visitor: u64 },
    /// The visitor gets the channel. A channel that served a visitor before is checked
    /// first.
    Pair { waiting: Waiting, channel: u64, reused: bool },
}

/// What becomes of a channel whose session is over.
#[derive(Clone, Copy, PartialEq, Eq, Debug, Structural)]
pub enum Finished {
    Kept,
    Close,
}

/// A pool of data channels and the visitors that wait for them, by its values.
pub struct TcpPoolView {
    /// Visitors, the oldest first.
    pub waiting: Seq<Waiting>,
    /// Channels that served no visitor yet, the oldest first.
    pub fresh: Seq<u64>,
    /// Channels that served a visitor, the one that finished first in front.
    pub idle: Seq<u64>,
    /// Visitors that have a channel on which the start command is being written.
    pub starting: nat,
    pub reuse: bool,
    pub max_idle: usize,
    /// The control channel is up.
    pub open: bool,
}

/// What the next step of a pool is at `now`, and what it leaves: the oldest visitor gets the
/// channel that finished first, or else the oldest one that served no visitor yet.
pub open spec fn pair_outcome(
    before: TcpPoolView,
    now: u64,
    r: PairStep,
    after: TcpPoolView,
) -> bool {
    let oldest = before.waiting[0];
    if before.waiting.len() == 0 {
        r == PairStep::Wait && after == before
    } else if now >= oldest.deadline {
        r == (PairStep::Expired { visitor: oldest.visitor }) && after == (TcpPoolView {
            waiting: before.waiting.skip(1),
            ..before
        })
    } else if before.idle.len() > 0 {
        r == (PairStep::Pair { waiting: oldest, channel: before.idle[0], reused: true }) && after
            == (TcpPoolView {
            waiting: before.waiting.skip(1),
            idle: before.idle.skip(1),
            starting: before.starting + 1,
            ..before
        })
    } else if before.fresh.len() > 0 {
        r == (PairStep::Pair { waiting: oldest, channel: before.fresh[0], reused: false }) && after
            == (TcpPoolView {
            waiting: before.waiting.skip(1),
            fresh: before.fresh.skip(1),
            starting: before.starting + 1,
            ..before
        })
    } else {
        r == PairStep::Wait && after == before
    }
}

/// A channel is at most once in the pool.
pub open spec fn channels_distinct(pool: TcpPoolView) -> bool {
    (pool.idle + pool.fresh).no_duplicates()
}

/// A channel that a visitor gets is no longer in the pool, so that no other visitor gets it,
/// and the other channels stay in the pool, each once.
pub proof fn law_a_channel_serves_one_visitor_at_a_time(
    before: TcpPoolView,
    now: u64,
    r: PairStep,
    after: TcpPoolView,
)
    requires
        channels_distinct(before),
        pair_outcome(before, now, r, after),
    ensures
        channels_distinct(after),
        r matches PairStep::Pair { waiting, channel, reused } ==> (before.idle
            + before.fresh).contains(channel) && !(after.idle + after.fresh).contains(channel),
        forall|c: u64|
            (before.idle + before.fresh).contains(c) ==> (#[trigger] (after.idle
                + after.fresh).contains(c) || (r matches PairStep::Pair {
                waiting,
                channel,
                reused,
            } && channel == c)),
{
    let b = before.idle + before.fresh;
    let a = after.idle + after.fresh;
    if r is Pair {
        assert(a =~= b.skip(1));
        assert(b[0] == r->channel);
        assert forall|i: int, j: int| 0 <= i < a.len() && 0 <= j < a.len() && i != j implies a[i]
            != a[j] by {
            assert(a[i] == b[i + 1] && a[j] == b[j + 1]);
        }
        assert forall|c: u64| b.contains(c) implies #[trigger] a.contains(c) || c == b[0] by {
            let i = b.index_of(c);
            if i > 0 {
                assert(a[i - 1] == c);
            }
        }
        if a.contains(b[0]) {
            let i = a.index_of(b[0]);
            assert(b[i + 1] == b[0]);
        }
    }
}

/// Visitors are served in the order in which they came, none after its deadline, and on a
/// channel that served a visitor before as long as there is one.
pub proof fn law_visitors_are_served_in_order(
    before: TcpPoolView,
    now: u64,
    r: PairStep,
    after: TcpPoolView,
)
    requires
        pair_outcome(before, now, r, after),
    ensures
        r matches PairStep::Pair { waiting, channel, reused } ==> {
            &&& before.waiting.len() > 0
            &&& waiting == before.waiting[0]
            &&& now < waiting.deadline
            &&& reused == (before.idle.len() > 0)
            &&& after.waiting == before.waiting.skip(1)
        },
        r matches PairStep::Expired { visitor } ==> before.waiting.len() > 0 && visitor
            == before.waiting[0].visitor && before.waiting[0].deadline <= now && after.waiting
            == before.waiting.skip(1),
        r is Wait ==> after.waiting == before.waiting && (before.waiting.len() == 0 || (
        before.idle.len() == 0 && before.fresh.len() == 0)),
{
}

/// The data channels of a TCP service and the visitors that wait for them. Sockets are
/// known by numbers.
pub struct TcpPool {
    waiting: VecDeque<Waiting>,
    fresh: VecDeque<u64>,
    idle: VecDeque<u64>,
    starting: usize,
    reuse: bool,
    max_idle: usize,
    open: bool,
}

impl View for TcpPool {
    type V = TcpPoolView;

    closed spec fn view(&self) -> TcpPoolView {
        TcpPoolView {
            waiting: self.waiting@,
            fresh: self.fresh@,
            idle: self.idle@,
            starting: self.starting as nat,
            reuse: self.reuse,
            max_idle: self.max_idle,
            open: self.open,
        }
    }
}

impl TcpPoolView {
    /// No more visitors wait than the queue holds, and no more channels than are kept. Only
    /// a service that reuses channels keeps them, and only as long as its control channel
    /// is up.
    pub open spec fn wf(self) -> bool {
        &&& self.waiting.len() + self.starting <= VISITOR_QUEUE_SIZE
        &&& self.idle.len() <= self.max_idle
        &&& !self.reuse || !self.open ==> self.idle.len() == 0
    }
}

impl TcpPool {
    /// The pool of a service. `max_idle` finished channels are kept, where channels are
    /// reused at all.
    pub fn new(reuse: bool, max_idle: usize) -> (r: Self)
        ensures
            r@.wf(),
            r@ == (TcpPoolView {
                waiting: Seq::empty(),
                fresh: Seq::empty(),
                idle: Seq::empty(),
                starting: 0,
                reuse,
                max_idle,
                open: true,
            }),
    {
        TcpPool {
            waiting: VecDeque::new(),
            fresh: VecDeque::new(),
            idle: VecDeque::new(),
            starting: 0,
            reuse,
            max_idle,
            open: true,
        }
    }

    /// A visitor was accepted at `now`. A new channel is asked for only where the finished
    /// channels do not go round to it.
    pub fn arrive(&mut self, visitor: u64, now: u64) -> (r: Arrival)
        requires
            old(self)@.wf(),
        ensures
            final(self)@.wf(),
            r == (if old(self)@.waiting.len() + old(self)@.starting >= VISITOR_QUEUE_SIZE {
                Arrival::Rejected
            } else {
                Arrival::Queued {
                    request_channel: old(self)@.waiting.len() >= old(self)@.idle.len(),
                }
            }),
            final(self)@ == (if r == Arrival::Rejected {
                old(self)@
            } else {
                TcpPoolView {
                    waiting: old(self)@.waiting.push(
                        Waiting { visitor, deadline: deadline_of(now) },
                    ),
                    ..old(self)@
                }
            }),
    {
        if self.waiting.len() + self.starting >= VISITOR_QUEUE_SIZE {
            return Arrival::Rejected;
        }
        let request_channel = self.waiting.len() >= self.idle.len();
        let deadline: u64 = visitor_deadline(now);
        self.waiting.push_back(Waiting { visitor, deadline });
        Arrival::Queued { request_channel }
    }

    /// The request for the channel of the visitor that came last could not be made: the
    /// visitor is dropped.
    pub fn withdraw_last(&mut self) -> (r: Option<u64>)
        requires
            old(self)@.wf(),
        ensures
            final(self)@.wf(),
            r is Some <==> old(self)@.waiting.len() > 0,
            r matches Some(visitor) ==> visitor == old(self)@.waiting.last().visitor
                && final(self)@ == (TcpPoolView {
                waiting: old(self)@.waiting.drop_last(),
                ..old(self)@
            }),
            r is None ==> final(self)@ == old(self)@,
    {
        match self.waiting.pop_back() {
            Some(w) => {
                proof {
                    assert(self@.waiting =~= old(self)@.waiting.drop_last());
                }
                Some(w.visitor)
            },
            None => None,
        }
    }

    /// The client opened a channel.
    pub fn channel_opened(&mut self, channel: u64)
        requires
            old(self)@.wf(),
        ensures
            final(self)@.wf(),
            final(self)@ == (TcpPoolView { fresh: old(self)@.fresh.push(channel), ..old(self)@ }),
    {
        self.fresh.push_back(channel);
    }

    /// Gives the oldest visitor a channel: one that served a visitor before, where there is
    /// one.
    pub fn pair_step(&mut self, now: u64) -> (r: PairStep)
        requires
            old(self)@.wf(),
        ensures
            final(self)@.wf(),
            pair_outcome(old(self)@, now, r, final(self)@),
    {
        if self.waiting.len() == 0 {
            return PairStep::Wait;
        }
        if now >= self.waiting[0].deadline {
            let w = self.waiting.pop_front().unwrap();
            proof {
                assert(self@.waiting =~= old(self)@.waiting.skip(1));
            }
            return PairStep::Expired { visitor: w.visitor };
        }
        if self.idle.len() > 0 {
            let waiting = self.waiting.pop_front().unwrap();
            let channel: u64 = self.idle.pop_front().unwrap();
            self.starting += 1;
            proof {
                assert(self@.waiting =~= old(self)@.waiting.skip(1));
                assert(self@.idle =~= old(self)@.idle.skip(1));
            }
            return PairStep::Pair { waiting, channel, reused: true };
        }
        if self.fresh.len() > 0 {
            let waiting = self.waiting.pop_front().unwrap();
            let channel: u64 = self.fresh.pop_front().unwrap();
            self.starting += 1;
            proof {
                assert(self@.waiting =~= old(self)@.waiting.skip(1));
                assert(self@.fresh =~= old(self)@.fresh.skip(1));
            }
            return PairStep::Pair { waiting, channel, reused: false };
        }
        PairStep::Wait
    }

    /// The start command of a visitor was written: its session begins.
    pub fn session_started(&mut self)
        requires
            old(self)@.wf(),
            old(self)@.starting > 0,
        ensures
            final(self)@.wf(),
            final(self)@ == (TcpPoolView {
                starting: (old(self)@.starting - 1) as nat,
                ..old(self)@
            }),
    {
        self.starting -= 1;
    }

    /// The channel of a visitor turned out to be broken: the visitor stays the first in the
    /// queue, with its deadline. A new channel is to be asked for, until the deadline that is
    /// returned.
    pub fn channel_broken(&mut self, waiting: Waiting) -> (r: Option<u64>)
        requires
            old(self)@.wf(),
            old(self)@.starting > 0,
        ensures
            final(self)@.wf(),
            r == Some(waiting.deadline),
            final(self)@ == (TcpPoolView {
                waiting: seq![waiting] + old(self)@.waiting,
                starting: (old(self)@.starting - 1) as nat,
                ..old(self)@
            }),
    {
        self.starting -= 1;
        let deadline: u64 = waiting.deadline;
        self.waiting.push_front(waiting);
        proof {
            assert(self@.waiting =~= seq![waiting] + old(self)@.waiting);
        }
        Some(deadline)
    }

    /// A session is over and its channel sits on a frame boundary.
    pub fn session_finished(&mut self, channel: u64) -> (r: Finished)
        requires
            old(self)@.wf(),
        ensures
            final(self)@.wf(),
            r == (if old(self)@.reuse && old(self)@.open && old(self)@.idle.len()
                < old(self)@.max_idle {
                Finished::Kept
            } else {
                Finished::Close
            }),
            final(self)@ == (if r == Finished::Kept {
                TcpPoolView { idle: old(self)@.idle.push(channel), ..old(self)@ }
            } else {
                old(self)@
            }),
    {
        if self.reuse && self.open && self.idle.len() < self.max_idle {
            self.idle.push_back(channel);
            Finished::Kept
        } else {
            Finished::Close
        }
    }

    /// The control channel is gone: the idle channels are to be closed.
    pub fn control_gone(&mut self) -> (r: VecDeque<u64>)
        requires
            old(self)@.wf(),
        ensures
            final(self)@.wf(),
            r@ == old(self)@.idle,
            final(self)@ == (TcpPoolView { idle: Seq::empty(), open: false, ..old(self)@ }),
    {
        let mut idle: VecDeque<u64> = VecDeque::new();
        core::mem::swap(&mut self.idle, &mut idle);
        self.open = false;
        idle
    }
}

/// Until when a visitor that was accepted at `now` waits.
pub open spec fn deadline_of(now: u64) -> u64 {
    if now <= u64::MAX - PAIRING_DEADLINE_MS {
        (now + PAIRING_DEADLINE_MS) as u64
    } else {
        u64::MAX
    }
}

/// Until when a visitor that was accepted at `now` waits, and the request for its channel is
/// worth sending.
pub fn visitor_deadline(now: u64) -> (r: u64)
    ensures
        r == deadline_of(now),
{
    if now <= u64::MAX - PAIRING_DEADLINE_MS {
        now + PAIRING_DEADLINE_MS
    } else {
        u64::MAX
    }
}

/// Where no finished channel is kept, every channel is closed after its visitor.
pub proof fn law_max_idle_zero_closes_every_channel(pool: TcpPoolView)
    requires
        pool.wf(),
        pool.max_idle == 0,
    ensures
        !(pool.reuse && pool.open && pool.idle.len() < pool.max_idle),
        pool.idle.len() == 0,
{
}

/// What happens to the pool of a UDP service.
pub enum UdpPoolEvent {
    /// A data channel is there, or there will be none.
    Channel(bool),
    /// A visitor sent a datagram.
    Datagram { from: SocketAddr, data: Vec<u8> },
    /// The client sent a datagram for a visitor.
    Traffic(UdpTraffic),
    /// A socket or the data channel failed.
    Failed,
    Shutdown,
}

/// What is done about it.
pub enum UdpPoolAction {
    /// Send the command, then wrap the channel.
    Start(VisitorPlan),
    /// Count a datagram of this many bytes, and send the bytes to the client.
    ToClient { bytes: Vec<u8>, counted: u64 },
    /// Count a datagram of this many bytes, and send it to the visitor.
    ToVisitor { traffic: UdpTraffic, counted: u64 },
    /// There is no data channel.
    NoChannel,
    Stop,
}

/// Decides what an event asks the pool of a UDP service for.
pub fn on_udp_event(compression: &Option<CompressionCtx>, event: UdpPoolEvent) -> (r:
    UdpPoolAction)
    ensures
        match event {
            UdpPoolEvent::Channel(there) => if there {
                r matches UdpPoolAction::Start(plan) && udp_plan(*compression, plan)
            } else {
                r is NoChannel
            },
            UdpPoolEvent::Datagram { from, data } => r matches UdpPoolAction::ToClient {
                bytes,
                counted,
            } && bytes@ == protocol::udp_encoding(from, data@) && counted == data@.len(),
            UdpPoolEvent::Traffic(t) => r matches UdpPoolAction::ToVisitor { traffic, counted }
                && traffic == t && counted == buffers::bytes_contents(t.data).len(),
            UdpPoolEvent::Failed => r is Stop,
            UdpPoolEvent::Shutdown => r is Stop,
        },
{
    match event {
        UdpPoolEvent::Channel(there) => {
            if there {
                UdpPoolAction::Start(plan_udp(compression))
            } else {
                UdpPoolAction::NoChannel
            }
        },
        UdpPoolEvent::Datagram { from, data } => UdpPoolAction::ToClient {
            bytes: UdpTraffic::write_slice(from, data.as_slice()),
            counted: data.len() as u64,
        },
        UdpPoolEvent::Traffic(traffic) => {
            let counted: u64 = traffic.payload().len() as u64;
            UdpPoolAction::ToVisitor { traffic, counted }
        },
        UdpPoolEvent::Failed => UdpPoolAction::Stop,
        UdpPoolEvent::Shutdown => UdpPoolAction::Stop,
    }
}

/// A visitor that comes waits behind all others for ten seconds from then on. It is turned away
/// only where 2048 wait already, and a new channel is asked for exactly where the finished ones
/// do not go round to it.
pub proof fn law_a_visitor_waits_its_turn(visitor: u64, now: u64)
    requires
        now <= u64::MAX - 10000,
    ensures
        forall|p: &mut TcpPool, r: Arrival|
            #[trigger] call_ensures(TcpPool::arrive, (p, visitor, now), r) ==> {
                let before = (*p)@;
                let after = (*final(p))@;
                &&& r == Arrival::Rejected <==> before.waiting.len() + before.starting >= 2048
                &&& r == Arrival::Rejected ==> after == before
                &&& r matches Arrival::Queued { request_channel } ==> {
                    &&& request_channel <==> before.idle.len() <= before.waiting.len()
                    &&& after.waiting.len() == before.waiting.len() + 1
                    &&& after.waiting.last().visitor == visitor
                    &&& after.waiting.last().deadline == now + 10000
                    &&& after.waiting.drop_last() == before.waiting
                    &&& after.idle == before.idle && after.fresh == before.fresh && after.starting
                        == before.starting
                }
            },
{
    assert forall|p: &mut TcpPool, r: Arrival|
        #[trigger] call_ensures(TcpPool::arrive, (p, visitor, now), r)
            && r is Queued implies (*final(p))@.waiting.drop_last() == (*p)@.waiting by {
        assert((*final(p))@.waiting.drop_last() =~= (*p)@.waiting);
    }
}

/// A visitor whose channel breaks is the next one to get a channel, with the deadline that it
/// had, and a new channel is asked for until then. A finished channel is kept, behind those that
/// finished before, exactly where channels are reused, the control channel is up, and there is
/// room; otherwise it is closed. When the control channel goes, every idle channel is closed and
/// none is kept any more.
pub proof fn law_channels_come_and_go(waiting: Waiting, channel: u64)
    ensures
        forall|p: &mut TcpPool, r: Option<u64>|
            #[trigger] call_ensures(TcpPool::channel_broken, (p, waiting), r) ==> r == Some(
                waiting.deadline,
            ) && (*final(p))@.waiting.len() == (*p)@.waiting.len() + 1 && (*final(p))@.waiting[0]
                == waiting && (*final(p))@.waiting.skip(1) == (*p)@.waiting && (*final(p))@.idle
                == (*p)@.idle && (*final(p))@.fresh == (*p)@.fresh,
        forall|p: &mut TcpPool, r: Finished|
            #[trigger] call_ensures(TcpPool::session_finished, (p, channel), r) ==> {
                let before = (*p)@;
                let after = (*final(p))@;
                &&& r == Finished::Kept <==> before.reuse && before.open && before.idle.len()
                    < before.max_idle
                &&& r == Finished::Kept ==> after.idle == before.idle.push(channel)
                &&& r != Finished::Kept ==> after.idle == before.idle
                &&& after.waiting == before.waiting && after.fresh == before.fresh
            },
        forall|p: &mut TcpPool, r: VecDeque<u64>|
            #[trigger] call_ensures(TcpPool::control_gone, (p,), r) ==> r@ == (*p)@.idle && (*final(p))@.idle.len() == 0 && !(*final(p))@.open && (*final(p))@.waiting == (*p)@.waiting,
        forall|p: &mut TcpPool|
            #[trigger] call_ensures(TcpPool::channel_opened, (p, channel), ()) ==> (*final(p))@.fresh
                == (*p)@.fresh.push(channel) && (*final(p))@.idle == (*p)@.idle && (*final(p))@.waiting == (*p)@.waiting,
{
    assert forall|p: &mut TcpPool, r: Option<u64>|
        #[trigger] call_ensures(
            TcpPool::channel_broken,
            (p, waiting),
            r,
        ) implies (*final(p))@.waiting.skip(1) == (*p)@.waiting by {
        assert((*final(p))@.waiting.skip(1) =~= (*p)@.waiting);
    }
}

} // verus!
