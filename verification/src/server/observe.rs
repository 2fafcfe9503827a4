//! The observation endpoint: counters of the services, snapshots of them, and the HTTP
//! answers that show them.
use crate::config;
use crate::config::{CompressionType, ServerServiceConfig, ServerServiceView, ServiceType};
use crate::protocol;
use crate::protocol::Digest;
use crate::server::state::{SamplerState, ServiceCompressionState};
use crate::table::Table;
use crate::text;
use vstd::prelude::*;
use vstd::utf8::*;

verus! {

pub const OBSERVE_REQUEST_LIMIT: usize = 8192;

pub const OBSERVE_REQUEST_TIMEOUT_SECS: u64 = 5;

/// Which side of the server bytes are counted on.
#[derive(Clone, Copy, PartialEq, Eq, Debug, Structural)]
pub enum ByteKind {
    Visitor,
    Wire,
}

/// How far an automatic dictionary is, and its digest once it is trained.
#[derive(Clone, Copy, PartialEq, Eq, Debug)]
pub struct AutoDictionary {
    pub state: AutoState,
    pub digest: Option<Digest>,
}

#[derive(Clone, Copy, PartialEq, Eq, Debug, Structural)]
pub enum AutoState {
    Sampling,
    Trained,
    Failed,
}

impl AutoDictionary {
    /// How far the dictionary of a service is.
    pub fn of(state: &ServiceCompressionState) -> (r: AutoDictionary)
        ensures
            r.state == (match state.sampler {
                SamplerState::Sampling(_) => AutoState::Sampling,
                SamplerState::Trained => AutoState::Trained,
                SamplerState::Failed => AutoState::Failed,
            }),
            r.digest == (match state.generation {
                Some(g) => Some(g.digest),
                None => None,
            }),
    {
        AutoDictionary {
            state: match &state.sampler {
                SamplerState::Sampling(_) => AutoState::Sampling,
                SamplerState::Trained => AutoState::Trained,
                SamplerState::Failed => AutoState::Failed,
            },
            digest: match &state.generation {
                Some(g) => Some(g.digest),
                None => None,
            },
        }
    }
}

/// The counters of a service. They wrap around like the machine's own counters.
pub struct ServiceStats {
    pub name: String,
    pub service_type: ServiceType,
    pub bind_addr: String,
    pub compression: Option<CompressionType>,
    pub static_digest: Option<Digest>,
    pub auto_dict: Option<AutoDictionary>,
    pub control_connected: bool,
    pub connections_active: u64,
    pub connections_total: u64,
    pub data_channels_reused: u64,
    pub bytes_in: u64,
    pub bytes_out: u64,
    pub wire_bytes_in: u64,
    pub wire_bytes_out: u64,
    pub datagrams_in: u64,
    pub datagrams_out: u64,
}

/// `a + b`, wrapping around.
pub open spec fn wrapped(a: u64, b: u64) -> u64 {
    a.wrapping_add(b)
}

/// Visitor bytes divided by data-channel bytes.
#[derive(Clone, Copy, PartialEq, Eq, Debug)]
pub struct Ratio {
    pub plain: u64,
    pub wire: u64,
}

/// The ratio of plain to wire bytes, if there are any on the wire.
pub fn compression_ratio(plain: u64, wire: u64) -> (r: Option<Ratio>)
    ensures
        r == (if wire == 0 {
            None
        } else {
            Some(Ratio { plain, wire })
        }),
{
    if wire == 0 {
        None
    } else {
        Some(Ratio { plain, wire })
    }
}

pub fn is_zero(v: &u64) -> (r: bool)
    ensures
        r == (*v == 0),
{
    *v == 0
}

/// The name of a service type.
pub open spec fn service_type_text(service_type: ServiceType) -> Seq<char> {
    match service_type {
        ServiceType::Tcp => "tcp"@,
        ServiceType::Udp => "udp"@,
    }
}

pub fn service_type_str(service_type: ServiceType) -> (r: &'static str)
    ensures
        r@ == service_type_text(service_type),
{
    match service_type {
        ServiceType::Tcp => "tcp",
        ServiceType::Udp => "udp",
    }
}

/// What a snapshot says about the dictionary of a service, by its values.
pub struct DictionarySnapshotView {
    pub mode: Seq<char>,
    pub state: Option<Seq<char>>,
    pub digest: Option<Seq<char>>,
}

/// What a snapshot says about the dictionary of a service.
#[derive(Debug, PartialEq, Eq)]
pub struct DictionarySnapshot {
    pub mode: &'static str,
    pub state: Option<&'static str>,
    pub digest: Option<String>,
}

/// The text of an optional string slice.
pub open spec fn opt_str(o: Option<&str>) -> Option<Seq<char>> {
    match o {
        Some(s) => Some(s@),
        None => None,
    }
}

impl View for DictionarySnapshot {
    type V = DictionarySnapshotView;

    open spec fn view(&self) -> DictionarySnapshotView {
        DictionarySnapshotView {
            mode: self.mode@,
            state: opt_str(self.state),
            digest: config::opt_text(self.digest),
        }
    }
}

/// The view of an optional dictionary snapshot.
pub open spec fn opt_dictionary_snapshot(o: Option<DictionarySnapshot>) -> Option<
    DictionarySnapshotView,
> {
    match o {
        Some(d) => Some(d@),
        None => None,
    }
}

/// The name of the state of an automatic dictionary.
pub open spec fn auto_state_text(state: AutoState) -> Seq<char> {
    match state {
        AutoState::Sampling => "sampling"@,
        AutoState::Trained => "trained"@,
        AutoState::Failed => "failed"@,
    }
}

/// The digest in hexadecimal digits.
pub open spec fn hex_digest(digest: Option<Digest>) -> Option<Seq<char>> {
    match digest {
        Some(d) => Some(text::hex_text(d@)),
        None => None,
    }
}

/// What a snapshot says about the dictionary: a static one is known by its digest, an
/// automatic one by how far it is. Without compression there is nothing to say.
pub open spec fn dictionary_state(s: ServiceStats) -> Option<DictionarySnapshotView> {
    if s.compression is None {
        None
    } else if s.static_digest is Some {
        Some(
            DictionarySnapshotView {
                mode: "static"@,
                state: None,
                digest: hex_digest(s.static_digest),
            },
        )
    } else {
        match s.auto_dict {
            Some(auto) => Some(
                DictionarySnapshotView {
                    mode: "auto"@,
                    state: Some(auto_state_text(auto.state)),
                    digest: hex_digest(auto.digest),
                },
            ),
            None => Some(DictionarySnapshotView { mode: "none"@, state: None, digest: None }),
        }
    }
}

/// The counters of a service at one moment, by their values.
pub struct ServiceSnapshotView {
    pub name: Seq<char>,
    pub service_type: Seq<char>,
    pub bind_addr: Seq<char>,
    pub control_connected: bool,
    pub connections_active: u64,
    pub connections_total: u64,
    pub data_channels_reused: u64,
    pub bytes_in: u64,
    pub bytes_out: u64,
    pub wire_bytes_in: u64,
    pub wire_bytes_out: u64,
    pub datagrams_in: u64,
    pub datagrams_out: u64,
    pub compression: Option<Seq<char>>,
    pub compression_ratio: Option<Ratio>,
    pub dictionary: Option<DictionarySnapshotView>,
}

/// The counters of a service at one moment.
#[derive(Debug, PartialEq, Eq)]
pub struct ServiceSnapshot {
    pub name: String,
    pub service_type: &'static str,
    pub bind_addr: String,
    pub control_connected: bool,
    pub connections_active: u64,
    pub connections_total: u64,
    pub data_channels_reused: u64,
    pub bytes_in: u64,
    pub bytes_out: u64,
    pub wire_bytes_in: u64,
    pub wire_bytes_out: u64,
    pub datagrams_in: u64,
    pub datagrams_out: u64,
    pub compression: Option<&'static str>,
    pub compression_ratio: Option<Ratio>,
    pub dictionary: Option<DictionarySnapshot>,
}

impl View for ServiceSnapshot {
    type V = ServiceSnapshotView;

    open spec fn view(&self) -> ServiceSnapshotView {
        ServiceSnapshotView {
            name: self.name@,
            service_type: self.service_type@,
            bind_addr: self.bind_addr@,
            control_connected: self.control_connected,
            connections_active: self.connections_active,
            connections_total: self.connections_total,
            data_channels_reused: self.data_channels_reused,
            bytes_in: self.bytes_in,
            bytes_out: self.bytes_out,
            wire_bytes_in: self.wire_bytes_in,
            wire_bytes_out: self.wire_bytes_out,
            datagrams_in: self.datagrams_in,
            datagrams_out: self.datagrams_out,
            compression: opt_str(self.compression),
            compression_ratio: self.compression_ratio,
            dictionary: opt_dictionary_snapshot(self.dictionary),
        }
    }
}

impl ServiceSnapshot {
    /// The reused data channels, where the JSON shows them: unless there are none.
    pub fn shown_reuse(&self) -> (r: Option<u64>)
        ensures
            r == (if self.data_channels_reused == 0 {
                None
            } else {
                Some(self.data_channels_reused)
            }),
    {
        if is_zero(&self.data_channels_reused) {
            None
        } else {
            Some(self.data_channels_reused)
        }
    }

    /// The datagrams in and out, where the JSON shows them: unless there are none in either
    /// direction.
    pub fn shown_datagrams(&self) -> (r: Option<(u64, u64)>)
        ensures
            r == (if self.datagrams_in == 0 && self.datagrams_out == 0 {
                None
            } else {
                Some((self.datagrams_in, self.datagrams_out))
            }),
    {
        if is_zero(&self.datagrams_in) && is_zero(&self.datagrams_out) {
            None
        } else {
            Some((self.datagrams_in, self.datagrams_out))
        }
    }
}

/// `a + b`, or the largest number where that is too large.
pub open spec fn saturated(a: u64, b: u64) -> u64 {
    if a + b <= u64::MAX {
        (a + b) as u64
    } else {
        u64::MAX
    }
}

/// What a snapshot of the counters shows.
pub open spec fn snapshot_of(s: ServiceStats) -> ServiceSnapshotView {
    let wire = saturated(s.wire_bytes_in, s.wire_bytes_out);
    ServiceSnapshotView {
        name: s.name@,
        service_type: service_type_text(s.service_type),
        bind_addr: s.bind_addr@,
        control_connected: s.control_connected,
        connections_active: s.connections_active,
        connections_total: s.connections_total,
        data_channels_reused: s.data_channels_reused,
        bytes_in: s.bytes_in,
        bytes_out: s.bytes_out,
        wire_bytes_in: s.wire_bytes_in,
        wire_bytes_out: s.wire_bytes_out,
        datagrams_in: s.datagrams_in,
        datagrams_out: s.datagrams_out,
        compression: if s.compression is Some {
            Some("zstd"@)
        } else {
            None
        },
        compression_ratio: if s.compression is Some && wire != 0 {
            Some(Ratio { plain: saturated(s.bytes_in, s.bytes_out), wire })
        } else {
            None
        },
        dictionary: dictionary_state(s),
    }
}

fn hex_of(digest: &Option<Digest>) -> (r: Option<String>)
    ensures
        config::opt_text(r) == hex_digest(*digest),
{
    match digest {
        Some(d) => Some(text::hex_encode(d)),
        None => None,
    }
}

impl ServiceStats {
    /// The counters of a new service.
    pub fn from_config(cfg: &ServerServiceConfig) -> (r: Self)
        ensures
            fresh_stats(cfg@, r),
    {
        ServiceStats {
            name: cfg.name.clone(),
            service_type: cfg.service_type,
            bind_addr: cfg.bind_addr.clone(),
            compression: cfg.compression,
            static_digest: match &cfg.compression_dictionary_loaded {
                Some(dictionary) => Some(dictionary.digest),
                None => None,
            },
            auto_dict: None,
            control_connected: false,
            connections_active: 0,
            connections_total: 0,
            data_channels_reused: 0,
            bytes_in: 0,
            bytes_out: 0,
            wire_bytes_in: 0,
            wire_bytes_out: 0,
            datagrams_in: 0,
            datagrams_out: 0,
        }
    }

    /// A copy of the counters.
    pub fn copied(&self) -> (r: ServiceStats)
        ensures
            r.name@ == self.name@,
            r.bind_addr@ == self.bind_addr@,
            r == (ServiceStats { name: r.name, bind_addr: r.bind_addr, ..*self }),
    {
        ServiceStats {
            name: self.name.clone(),
            service_type: self.service_type,
            bind_addr: self.bind_addr.clone(),
            compression: self.compression,
            static_digest: self.static_digest,
            auto_dict: self.auto_dict,
            control_connected: self.control_connected,
            connections_active: self.connections_active,
            connections_total: self.connections_total,
            data_channels_reused: self.data_channels_reused,
            bytes_in: self.bytes_in,
            bytes_out: self.bytes_out,
            wire_bytes_in: self.wire_bytes_in,
            wire_bytes_out: self.wire_bytes_out,
            datagrams_in: self.datagrams_in,
            datagrams_out: self.datagrams_out,
        }
    }

    pub fn set_control_connected(&mut self, connected: bool)
        ensures
            *final(self) == (ServiceStats { control_connected: connected, ..*old(self) }),
    {
        self.control_connected = connected;
    }

    pub fn attach_auto_dict(&mut self, auto: Option<AutoDictionary>)
        ensures
            *final(self) == (ServiceStats { auto_dict: auto, ..*old(self) }),
    {
        self.auto_dict = auto;
    }

    /// A visitor's session begins, on a channel that served a visitor before or not.
    pub fn on_session_start(&mut self, reused: bool)
        ensures
            *final(self) == (ServiceStats {
                connections_total: wrapped(old(self).connections_total, 1),
                connections_active: wrapped(old(self).connections_active, 1),
                data_channels_reused: if reused {
                    wrapped(old(self).data_channels_reused, 1)
                } else {
                    old(self).data_channels_reused
                },
                ..*old(self)
            }),
    {
        self.connections_total = self.connections_total.wrapping_add(1);
        self.connections_active = self.connections_active.wrapping_add(1);
        if reused {
            self.data_channels_reused = self.data_channels_reused.wrapping_add(1);
        }
    }

    pub fn on_session_end(&mut self)
        ensures
            *final(self) == (ServiceStats {
                connections_active: old(self).connections_active.wrapping_sub(1),
                ..*old(self)
            }),
    {
        self.connections_active = self.connections_active.wrapping_sub(1);
    }

    pub fn add_datagram_in(&mut self, n: u64)
        ensures
            *final(self) == (ServiceStats {
                datagrams_in: wrapped(old(self).datagrams_in, 1),
                bytes_in: wrapped(old(self).bytes_in, n),
                ..*old(self)
            }),
    {
        self.datagrams_in = self.datagrams_in.wrapping_add(1);
        self.bytes_in = self.bytes_in.wrapping_add(n);
    }

    pub fn add_datagram_out(&mut self, n: u64)
        ensures
            *final(self) == (ServiceStats {
                datagrams_out: wrapped(old(self).datagrams_out, 1),
                bytes_out: wrapped(old(self).bytes_out, n),
                ..*old(self)
            }),
    {
        self.datagrams_out = self.datagrams_out.wrapping_add(1);
        self.bytes_out = self.bytes_out.wrapping_add(n);
    }

    /// Bytes were read from a visitor or from a data channel.
    pub fn add_read(&mut self, n: u64, kind: ByteKind)
        ensures
            *final(self) == (match kind {
                ByteKind::Visitor => ServiceStats {
                    bytes_in: wrapped(old(self).bytes_in, n),
                    ..*old(self)
                },
                ByteKind::Wire => ServiceStats {
                    wire_bytes_in: wrapped(old(self).wire_bytes_in, n),
                    ..*old(self)
                },
            }),
    {
        match kind {
            ByteKind::Visitor => {
                self.bytes_in = self.bytes_in.wrapping_add(n);
            },
            ByteKind::Wire => {
                self.wire_bytes_in = self.wire_bytes_in.wrapping_add(n);
            },
        }
    }

    /// Bytes were written to a visitor or to a data channel.
    pub fn add_write(&mut self, n: u64, kind: ByteKind)
        ensures
            *final(self) == (match kind {
                ByteKind::Visitor => ServiceStats {
                    bytes_out: wrapped(old(self).bytes_out, n),
                    ..*old(self)
                },
                ByteKind::Wire => ServiceStats {
                    wire_bytes_out: wrapped(old(self).wire_bytes_out, n),
                    ..*old(self)
                },
            }),
    {
        match kind {
            ByteKind::Visitor => {
                self.bytes_out = self.bytes_out.wrapping_add(n);
            },
            ByteKind::Wire => {
                self.wire_bytes_out = self.wire_bytes_out.wrapping_add(n);
            },
        }
    }

    /// What the counters show at this moment.
    pub fn snapshot(&self) -> (r: ServiceSnapshot)
        ensures
            r@ == snapshot_of(*self),
    {
        let compression: Option<&'static str> = match self.compression {
            Some(_) => Some("zstd"),
            None => None,
        };
        let ratio = if self.compression.is_some() {
            compression_ratio(
                self.bytes_in.saturating_add(self.bytes_out),
                self.wire_bytes_in.saturating_add(self.wire_bytes_out),
            )
        } else {
            None
        };
        ServiceSnapshot {
            name: self.name.clone(),
            service_type: service_type_str(self.service_type),
            bind_addr: self.bind_addr.clone(),
            control_connected: self.control_connected,
            connections_active: self.connections_active,
            connections_total: self.connections_total,
            data_channels_reused: self.data_channels_reused,
            bytes_in: self.bytes_in,
            bytes_out: self.bytes_out,
            wire_bytes_in: self.wire_bytes_in,
            wire_bytes_out: self.wire_bytes_out,
            datagrams_in: self.datagrams_in,
            datagrams_out: self.datagrams_out,
            compression,
            compression_ratio: ratio,
            dictionary: self.dictionary_snapshot(),
        }
    }

    /// What a snapshot says about the dictionary.
    pub fn dictionary_snapshot(&self) -> (r: Option<DictionarySnapshot>)
        ensures
            opt_dictionary_snapshot(r) == dictionary_state(*self),
    {
        if self.compression.is_none() {
            return None;
        }
        if self.static_digest.is_some() {
            return Some(
                DictionarySnapshot {
                    mode: "static",
                    state: None,
                    digest: hex_of(&self.static_digest),
                },
            );
        }
        match &self.auto_dict {
            Some(auto) => {
                let state = match auto.state {
                    AutoState::Sampling => "sampling",
                    AutoState::Trained => "trained",
                    AutoState::Failed => "failed",
                };
                Some(
                    DictionarySnapshot {
                        mode: "auto",
                        state: Some(state),
                        digest: hex_of(&auto.digest),
                    },
                )
            },
            None => Some(DictionarySnapshot { mode: "none", state: None, digest: None }),
        }
    }
}

/// The counters of a service that was just configured.
pub open spec fn fresh_stats(cfg: ServerServiceView, s: ServiceStats) -> bool {
    &&& s.name@ == cfg.name
    &&& s.service_type == cfg.service_type
    &&& s.bind_addr@ == cfg.bind_addr
    &&& s.compression == cfg.compression
    &&& match (s.static_digest, cfg.compression_dictionary_loaded) {
        (Some(d), Some(dictionary)) => d@ == dictionary.digest,
        (None, None) => true,
        _ => false,
    }
    &&& s.auto_dict is None
    &&& !s.control_connected
    &&& s.connections_active == 0
    &&& s.connections_total == 0
    &&& s.data_channels_reused == 0
    &&& s.bytes_in == 0
    &&& s.bytes_out == 0
    &&& s.wire_bytes_in == 0
    &&& s.wire_bytes_out == 0
    &&& s.datagrams_in == 0
    &&& s.datagrams_out == 0
}

/// All services at one moment.
#[derive(Debug, PartialEq, Eq)]
pub struct StatsSnapshot {
    pub uptime_secs: u64,
    pub services: Vec<ServiceSnapshot>,
}

/// The values of a list of snapshots.
pub open spec fn snapshot_views(list: Seq<ServiceSnapshot>) -> Seq<ServiceSnapshotView> {
    list.map_values(|s: ServiceSnapshot| s@)
}

/// The snapshots are in the order of their names.
pub open spec fn sorted_by_name(list: Seq<ServiceSnapshotView>) -> bool {
    forall|i: int, j: int|
        0 <= i < j < list.len() ==> text::text_le(
            (#[trigger] list[i]).name,
            (#[trigger] list[j]).name,
        )
}

impl StatsSnapshot {
    /// A snapshot of services, in the order of their names.
    pub fn new(uptime_secs: u64, services: Vec<ServiceSnapshot>) -> (r: StatsSnapshot)
        ensures
            r.uptime_secs == uptime_secs,
            sorted_by_name(snapshot_views(r.services@)),
            snapshot_views(r.services@).to_multiset() == snapshot_views(services@).to_multiset(),
    {
        let mut rest = services;
        let mut list: Vec<ServiceSnapshot> = Vec::new();
        proof {
            assert(snapshot_views(list@) + snapshot_views(rest@) =~= snapshot_views(services@));
        }
        while rest.len() > 0
            invariant
                sorted_by_name(snapshot_views(list@)),
                (snapshot_views(list@) + snapshot_views(rest@)).to_multiset() == snapshot_views(
                    services@,
                ).to_multiset(),
            decreases rest@.len(),
        {
            let ghost before_rest = rest@;
            let ghost before = list@;
            match rest.pop() {
                Some(snapshot) => {
                    let ghost item = snapshot@;
                    insert_by_name(&mut list, snapshot);
                    proof {
                        let l = snapshot_views(before);
                        let q = snapshot_views(rest@);
                        assert(snapshot_views(before_rest) =~= q.push(item));
                        assert((l + q.push(item)) =~= (l + q).push(item));
                        vstd::seq_lib::to_multiset_build(l + q, item);
                        vstd::seq_lib::lemma_multiset_commutative(l, q);
                        vstd::seq_lib::lemma_multiset_commutative(snapshot_views(list@), q);
                        assert(snapshot_views(list@).to_multiset() == l.to_multiset().insert(item));
                        assert((snapshot_views(list@) + q).to_multiset() =~= (l
                            + q).to_multiset().insert(item));
                    }
                },
                None => {},
            }
        }
        proof {
            assert(snapshot_views(list@) + snapshot_views(rest@) =~= snapshot_views(list@));
        }
        StatsSnapshot { uptime_secs, services: list }
    }
}

/// Inserts a snapshot where the order of names wants it.
fn insert_by_name(list: &mut Vec<ServiceSnapshot>, snapshot: ServiceSnapshot)
    requires
        sorted_by_name(snapshot_views(old(list)@)),
    ensures
        sorted_by_name(snapshot_views(final(list)@)),
        snapshot_views(final(list)@).to_multiset() == snapshot_views(
            old(list)@,
        ).to_multiset().insert(snapshot@),
{
    let mut at: usize = 0;
    let mut searching = true;
    while at < list.len() && searching
        invariant
            *list == *old(list),
            at <= list@.len(),
            forall|j: int|
                0 <= j < at ==> text::text_le(
                    (#[trigger] snapshot_views(list@)[j]).name,
                    snapshot@.name,
                ),
            !searching ==> at < list@.len() && !text::text_le(
                snapshot_views(list@)[at as int].name,
                snapshot@.name,
            ),
        decreases
            list@.len() - at,
            if searching {
                1int
            } else {
                0int
            },
    {
        if text::str_le(list[at].name.as_str(), snapshot.name.as_str()) {
            proof {
                assert(snapshot_views(list@)[at as int].name == list@[at as int].name@);
            }
            at += 1;
        } else {
            searching = false;
        }
    }
    let ghost item = snapshot@;
    let ghost before = snapshot_views(list@);
    list.insert(at, snapshot);
    proof {
        let after = snapshot_views(list@);
        assert(after =~= before.insert(at as int, item));
        vstd::seq_lib::to_multiset_insert(before, at as int, item);
        assert forall|i: int, j: int| 0 <= i < j < after.len() implies text::text_le(
            (#[trigger] after[i]).name,
            (#[trigger] after[j]).name,
        ) by {
            let k = at as int;
            if i < k && j == k {
                assert(before[i] == after[i]);
            } else if i == k && j > k {
                assert(before[j - 1] == after[j]);
                text::lemma_text_le_total(item.name, before[k].name);
                if j - 1 > k {
                    text::lemma_text_le_transitive(item.name, before[k].name, before[j - 1].name);
                }
            } else {
                let x = if i < k {
                    i
                } else {
                    i - 1
                };
                let y = if j < k {
                    j
                } else {
                    j - 1
                };
                assert(before[x] == after[i]);
                assert(before[y] == after[j]);
            }
        }
    }
}

/// The counters of all services. `S` is how the counters of one service are shared.
pub struct ServerStats<S> {
    pub services: Table<String, S>,
}

impl<S> ServerStats<S> {
    pub fn new() -> (r: Self)
        ensures
            r.services.wf(),
            r.services.entries().len() == 0,
    {
        ServerStats { services: Table::new() }
    }

    /// Sets the counters of a service. Counters that it had before are gone.
    pub fn upsert(&mut self, name: String, stats: S)
        requires
            old(self).services.wf(),
        ensures
            final(self).services.wf(),
            final(self).services.lookup(name@) == Some(stats),
            forall|id: Seq<char>| id != name@ ==> final(self).services.lookup(id)
                == old(self).services.lookup(id),
    {
        let _ = self.services.insert(name, stats);
    }

    /// Forgets a service.
    pub fn remove(&mut self, name: &String)
        requires
            old(self).services.wf(),
        ensures
            final(self).services.wf(),
            final(self).services.lookup(name@) is None,
            forall|id: Seq<char>| id != name@ ==> final(self).services.lookup(id)
                == old(self).services.lookup(id),
    {
        let _ = self.services.remove(name);
    }

    /// The counters of a service.
    pub fn service(&self, name: &String) -> (r: Option<&S>)
        requires
            self.services.wf(),
        ensures
            r == (match self.services.lookup(name@) {
                Some(s) => Some(&s),
                None => None::<&S>,
            }),
    {
        self.services.get(name)
    }
}

impl ServerStats<ServiceStats> {
    /// The counters of all services that are configured. Where two have the same name, the
    /// later one counts.
    pub fn from_services(services: &Table<String, ServerServiceConfig>) -> (r: Self)
        ensures
            r.services.wf(),
            forall|id: Seq<char>|
                match #[trigger] r.services.lookup(id) {
                    Some(s) => exists|i: int|
                        0 <= i < services.entries().len() && fresh_stats(
                            #[trigger] services.entries()[i].1@,
                            s,
                        ) && services.entries()[i].1.name@ == id && forall|j: int|
                            i < j < services.entries().len() ==> (
                            #[trigger] services.entries()[j]).1.name@ != id,
                    None => forall|i: int|
                        0 <= i < services.entries().len() ==> (
                        #[trigger] services.entries()[i]).1.name@ != id,
                },
    {
        let mut stats: ServerStats<ServiceStats> = ServerStats::new();
        let mut i: usize = 0;
        while i < services.len()
            invariant
                stats.services.wf(),
                i <= services.entries().len(),
                forall|id: Seq<char>|
                    match #[trigger] stats.services.lookup(id) {
                        Some(s) => exists|k: int|
                            0 <= k < i && fresh_stats(#[trigger] services.entries()[k].1@, s)
                                && services.entries()[k].1.name@ == id && forall|j: int|
                                k < j < i ==> (#[trigger] services.entries()[j]).1.name@ != id,
                        None => forall|k: int|
                            0 <= k < i ==> (#[trigger] services.entries()[k]).1.name@ != id,
                    },
            decreases services.entries().len() - i,
        {
            let cfg = services.value_at(i);
            let ghost before = stats;
            stats.upsert(cfg.name.clone(), ServiceStats::from_config(cfg));
            proof {
                assert forall|id: Seq<char>|
                    match #[trigger] stats.services.lookup(id) {
                        Some(s) => exists|k: int|
                            0 <= k < i + 1 && fresh_stats(#[trigger] services.entries()[k].1@, s)
                                && services.entries()[k].1.name@ == id && forall|j: int|
                                k < j < i + 1 ==> (#[trigger] services.entries()[j]).1.name@ != id,
                        None => forall|k: int|
                            0 <= k < i + 1 ==> (#[trigger] services.entries()[k]).1.name@ != id,
                    } by {
                    if id == cfg.name@ {
                        assert(fresh_stats(
                            services.entries()[i as int].1@,
                            stats.services.lookup(id)->0,
                        ));
                    } else {
                        assert(stats.services.lookup(id) == before.services.lookup(id));
                        if let Some(s) = before.services.lookup(id) {
                            let k = choose|k: int|
                                0 <= k < i && fresh_stats(#[trigger] services.entries()[k].1@, s)
                                    && services.entries()[k].1.name@ == id && forall|j: int|
                                    k < j < i ==> (#[trigger] services.entries()[j]).1.name@ != id;
                            assert(fresh_stats(services.entries()[k].1@, s));
                        }
                    }
                }
            }
            i += 1;
        }
        stats
    }

    /// All services at this moment, in the order of their names.
    pub fn snapshot(&self, uptime_secs: u64) -> (r: StatsSnapshot)
        ensures
            r.uptime_secs == uptime_secs,
            sorted_by_name(snapshot_views(r.services@)),
            snapshot_views(r.services@).to_multiset() == self.services.entries().map_values(
                |e: (String, ServiceStats)| snapshot_of(e.1),
            ).to_multiset(),
    {
        let ghost target = self.services.entries().map_values(
            |e: (String, ServiceStats)| snapshot_of(e.1),
        );
        let mut list: Vec<ServiceSnapshot> = Vec::new();
        let mut i: usize = 0;
        while i < self.services.len()
            invariant
                i <= self.services.entries().len(),
                target == self.services.entries().map_values(
                    |e: (String, ServiceStats)| snapshot_of(e.1),
                ),
                snapshot_views(list@) == target.take(i as int),
            decreases self.services.entries().len() - i,
        {
            let ghost before = list@;
            list.push(self.services.value_at(i).snapshot());
            proof {
                assert(snapshot_views(list@) =~= snapshot_views(before).push(target[i as int]));
                assert(target.take(i + 1) =~= target.take(i as int).push(target[i as int]));
            }
            i += 1;
        }
        proof {
            assert(target.take(target.len() as int) =~= target);
        }
        StatsSnapshot::new(uptime_secs, list)
    }
}

/// A snapshot shows every counter under its own name. The ratio divides what visitors sent and
/// received by what the data channels carried for it; there is one exactly where the service is
/// compressed and its channels carried something.
pub proof fn law_a_snapshot_shows_the_counters(s: &ServiceStats, r: ServiceSnapshot)
    requires
        call_ensures(ServiceStats::snapshot, (s,), r),
    ensures
        r.name@ == s.name@,
        r.bind_addr@ == s.bind_addr@,
        r.service_type@ == (if s.service_type == ServiceType::Tcp {
            "tcp"@
        } else {
            "udp"@
        }),
        r.control_connected == s.control_connected,
        r.connections_active == s.connections_active,
        r.connections_total == s.connections_total,
        r.data_channels_reused == s.data_channels_reused,
        r.bytes_in == s.bytes_in,
        r.bytes_out == s.bytes_out,
        r.wire_bytes_in == s.wire_bytes_in,
        r.wire_bytes_out == s.wire_bytes_out,
        r.datagrams_in == s.datagrams_in,
        r.datagrams_out == s.datagrams_out,
        r.compression is Some <==> s.compression is Some,
        r.compression_ratio is Some <==> s.compression is Some && s.wire_bytes_in
            + s.wire_bytes_out > 0,
        r.compression_ratio matches Some(ratio) ==> {
            &&& s.bytes_in + s.bytes_out <= u64::MAX ==> ratio.plain == s.bytes_in + s.bytes_out
            &&& s.wire_bytes_in + s.wire_bytes_out <= u64::MAX ==> ratio.wire == s.wire_bytes_in
                + s.wire_bytes_out
        },
{
    let v = r@;
    assert(v == snapshot_of(*s));
    assert(v.name == r.name@);
}

/// A snapshot of a service that is not compressed speaks of no dictionary. One with a static
/// dictionary shows its digest, whatever is trained.
pub proof fn law_a_snapshot_shows_the_dictionary_in_use(s: &ServiceStats, r: ServiceSnapshot)
    requires
        call_ensures(ServiceStats::snapshot, (s,), r),
    ensures
        r.dictionary is Some <==> s.compression is Some,
        s.compression is Some && s.static_digest is Some ==> (r.dictionary matches Some(d) && d.mode@
            == "static"@ && (d.digest matches Some(hex) && hex@ == text::hex_text(
            s.static_digest->0@,
        ))),
        s.compression is Some && s.static_digest is None && s.auto_dict is None ==> (
        r.dictionary matches Some(d) && d.mode@ == "none"@ && d.digest is None),
        s.compression is Some && s.static_digest is None && s.auto_dict is Some ==> (
        r.dictionary matches Some(d) && d.mode@ == "auto"@ && d.state is Some),
{
    let v = r@;
    assert(v == snapshot_of(*s));
    assert(v.dictionary == opt_dictionary_snapshot(r.dictionary));
}

/// A session counts as active from its start to its end, and is counted in all from its start
/// on; on a channel that served a visitor before it is counted among the reused ones too. When
/// it is over, one session more was counted and as many are active as before. Nothing else
/// moves.
pub proof fn law_a_session_is_active_from_start_to_end(reused: bool)
    ensures
        forall|s: &mut ServiceStats|
            #[trigger] call_ensures(ServiceStats::on_session_start, (s, reused), ()) && s.connections_active
                < u64::MAX && s.connections_total < u64::MAX && s.data_channels_reused < u64::MAX
                ==> *final(s) == (ServiceStats {
                connections_active: (s.connections_active + 1) as u64,
                connections_total: (s.connections_total + 1) as u64,
                data_channels_reused: (s.data_channels_reused + if reused {
                    1int
                } else {
                    0
                }) as u64,
                ..*s
            }),
        forall|s: &mut ServiceStats|
            #[trigger] call_ensures(ServiceStats::on_session_end, (s,), ()) && s.connections_active > 0
                ==> *final(s) == (ServiceStats {
                connections_active: (s.connections_active - 1) as u64,
                ..*s
            }),
{
}

/// Bytes are counted once, on the side and in the direction in which they passed, and nowhere
/// else. A datagram of a visitor counts as one, with its bytes on the side of the visitor.
pub proof fn law_bytes_are_counted_where_they_pass(n: u64)
    ensures
        forall|s: &mut ServiceStats|
            #[trigger] call_ensures(ServiceStats::add_read, (s, n, ByteKind::Visitor), ()) && s.bytes_in
                + n <= u64::MAX ==> *final(s) == (ServiceStats {
                bytes_in: (s.bytes_in + n) as u64,
                ..*s
            }),
        forall|s: &mut ServiceStats|
            #[trigger] call_ensures(ServiceStats::add_write, (s, n, ByteKind::Visitor), ())
                && s.bytes_out + n <= u64::MAX ==> *final(s) == (ServiceStats {
                bytes_out: (s.bytes_out + n) as u64,
                ..*s
            }),
        forall|s: &mut ServiceStats|
            #[trigger] call_ensures(ServiceStats::add_read, (s, n, ByteKind::Wire), ())
                && s.wire_bytes_in + n <= u64::MAX ==> *final(s) == (ServiceStats {
                wire_bytes_in: (s.wire_bytes_in + n) as u64,
                ..*s
            }),
        forall|s: &mut ServiceStats|
            #[trigger] call_ensures(ServiceStats::add_write, (s, n, ByteKind::Wire), ())
                && s.wire_bytes_out + n <= u64::MAX ==> *final(s) == (ServiceStats {
                wire_bytes_out: (s.wire_bytes_out + n) as u64,
                ..*s
            }),
        forall|s: &mut ServiceStats|
            #[trigger] call_ensures(ServiceStats::add_datagram_in, (s, n), ()) && s.bytes_in + n
                <= u64::MAX && s.datagrams_in < u64::MAX ==> *final(s) == (ServiceStats {
                bytes_in: (s.bytes_in + n) as u64,
                datagrams_in: (s.datagrams_in + 1) as u64,
                ..*s
            }),
        forall|s: &mut ServiceStats|
            #[trigger] call_ensures(ServiceStats::add_datagram_out, (s, n), ()) && s.bytes_out + n
                <= u64::MAX && s.datagrams_out < u64::MAX ==> *final(s) == (ServiceStats {
                bytes_out: (s.bytes_out + n) as u64,
                datagrams_out: (s.datagrams_out + 1) as u64,
                ..*s
            }),
{
}

/// A service that is new has counted nothing, and speaks for the service that is configured.
pub proof fn law_counters_start_at_zero(cfg: &ServerServiceConfig, r: ServiceStats)
    requires
        call_ensures(ServiceStats::from_config, (cfg,), r),
    ensures
        r.name@ == cfg.name@,
        r.bind_addr@ == cfg.bind_addr@,
        r.service_type == cfg.service_type,
        r.compression == cfg.compression,
        !r.control_connected,
        r.connections_active == 0 && r.connections_total == 0 && r.data_channels_reused == 0,
        r.bytes_in == 0 && r.bytes_out == 0 && r.wire_bytes_in == 0 && r.wire_bytes_out == 0,
        r.datagrams_in == 0 && r.datagrams_out == 0,
{
}

} // verus!
