//! Everything that a running server knows: its services, their control channels, their
//! dictionaries and their counters; and how a new configuration changes it.
use crate::config::{ServerConfig, ServerServiceConfig};
use crate::protocol;
use crate::protocol::Digest;
use crate::server::control;
use crate::server::control::{Channel, ControlChannelMap, Services};
use crate::server::observe::ServerStats;
use crate::server::state;
use crate::server::state::ServiceCompressionState;
use crate::table::Table;
use vstd::prelude::*;
use vstd::utf8::*;

verus! {

/// A service that was added or changed, or one that is gone.
pub enum ServerServiceChange {
    Add(ServerServiceConfig),
    Delete(String),
}

/// The state of a running server. `H` is the handle of a control channel, `C` the shared
/// dictionary state of a service, `S` its shared counters.
pub struct Server<H, C, S> {
    /// The services, by the digests of their names.
    pub services: Services,
    /// The control channels that are up.
    pub control_channels: ControlChannelMap<H>,
    /// The dictionaries that are being trained or were, by the digests of the services.
    pub compression_states: Table<Digest, C>,
    /// The counters, where the server is observed.
    pub stats: Option<ServerStats<S>>,
}

/// What the dictionary state of a service calls for.
pub enum StateNeed {
    /// No dictionary is trained for the service.
    NoTraining,
    /// The service has its state.
    Existing,
    /// This is the state to start with.
    Create(ServiceCompressionState),
}

/// The digest of a service name.
pub open spec fn name_digest(name: Seq<char>) -> Seq<u8> {
    protocol::sha256(encode_utf8(name))
}

impl<H, C, S> Server<H, C, S> {
    pub open spec fn wf(self) -> bool {
        &&& self.services.wf()
        &&& self.control_channels.wf()
        &&& self.compression_states.wf()
        &&& self.stats matches Some(stats) ==> stats.services.wf()
    }

    /// The state of a server that starts with a configuration. `stats` holds the counters
    /// where the server is observed.
    pub fn from(config: &ServerConfig, stats: Option<ServerStats<S>>) -> (r: Self)
        requires
            config.services.wf(),
            stats matches Some(s) ==> s.services.wf(),
        ensures
            r.wf(),
            r.control_channels.channels().len() == 0,
            r.compression_states.entries().len() == 0,
            r.stats == stats,
            forall|id: Seq<u8>|
                (#[trigger] r.services.lookup(id)) is Some ==> exists|i: int|
                    0 <= i < config.services.entries().len() && id == protocol::sha256(
                        encode_utf8((#[trigger] config.services.entries()[i]).0@),
                    ),
            forall|i: int|
                0 <= i < config.services.entries().len() && (forall|j: int|
                    i < j < config.services.entries().len() ==> protocol::sha256(
                        encode_utf8((#[trigger] config.services.entries()[j]).0@),
                    ) != protocol::sha256(encode_utf8(config.services.entries()[i].0@)))
                    ==> r.services.lookup(
                    protocol::sha256(encode_utf8((#[trigger] config.services.entries()[i]).0@)),
                ) is Some && r.services.lookup(
                    protocol::sha256(encode_utf8(config.services.entries()[i].0@)),
                )->0@ == config.services.entries()[i].1@,
    {
        Server {
            services: control::generate_service_hashmap(config),
            control_channels: ControlChannelMap::new(),
            compression_states: Table::new(),
            stats,
        }
    }

    /// A service was added, or its configuration has changed. Its control channel is
    /// dropped, so that the client reconnects, and so is what was trained for it. `stats`
    /// are its new counters.
    pub fn add_service(&mut self, cfg: ServerServiceConfig, stats: S) -> (dropped: Option<
        Channel<H>,
    >)
        requires
            old(self).wf(),
        ensures
            final(self).wf(),
            final(self).services.lookup(name_digest(cfg.name@)) == Some(cfg),
            forall|id: Seq<u8>|
                id != name_digest(cfg.name@) ==> final(self).services.lookup(id) == old(
                    self,
                ).services.lookup(id) && final(self).compression_states.lookup(id) == old(
                    self,
                ).compression_states.lookup(id),
            final(self).compression_states.lookup(name_digest(cfg.name@)) is None,
            !final(self).control_channels.has_service(name_digest(cfg.name@)),
            control::channel_dropped(
                old(self).control_channels,
                final(self).control_channels,
                name_digest(cfg.name@),
                dropped,
            ),
            match (old(self).stats, final(self).stats) {
                (Some(before), Some(after)) => after.services.lookup(cfg.name@) == Some(stats)
                    && forall|id: Seq<char>|
                    id != cfg.name@ ==> after.services.lookup(id) == before.services.lookup(id),
                (None, None) => true,
                _ => false,
            },
    {
        let hash = protocol::digest(cfg.name.as_str().as_bytes());
        if let Some(all) = &mut self.stats {
            all.upsert(cfg.name.clone(), stats);
        }
        let _ = self.services.insert(hash, cfg);
        let dropped = self.control_channels.remove1(&hash);
        let _ = self.compression_states.remove(&hash);
        dropped
    }

    /// A service is gone, with everything that the server knows about it.
    pub fn delete_service(&mut self, name: &String) -> (dropped: Option<Channel<H>>)
        requires
            old(self).wf(),
        ensures
            final(self).wf(),
            final(self).services.lookup(name_digest(name@)) is None,
            forall|id: Seq<u8>|
                id != name_digest(name@) ==> final(self).services.lookup(id) == old(
                    self,
                ).services.lookup(id) && final(self).compression_states.lookup(id) == old(
                    self,
                ).compression_states.lookup(id),
            final(self).compression_states.lookup(name_digest(name@)) is None,
            !final(self).control_channels.has_service(name_digest(name@)),
            control::channel_dropped(
                old(self).control_channels,
                final(self).control_channels,
                name_digest(name@),
                dropped,
            ),
            match (old(self).stats, final(self).stats) {
                (Some(before), Some(after)) => after.services.lookup(name@) is None && forall|
                    id: Seq<char>,
                | id != name@ ==> after.services.lookup(id) == before.services.lookup(id),
                (None, None) => true,
                _ => false,
            },
    {
        if let Some(all) = &mut self.stats {
            all.remove(name);
        }
        let hash = protocol::digest(name.as_str().as_bytes());
        let _ = self.services.remove(&hash);
        let dropped = self.control_channels.remove1(&hash);
        let _ = self.compression_states.remove(&hash);
        dropped
    }

    /// Takes a change of the configuration. `stats` are the counters of a service that was
    /// added.
    pub fn handle_hot_reload(&mut self, change: ServerServiceChange, stats: S) -> (dropped: Option<
        Channel<H>,
    >)
        requires
            old(self).wf(),
        ensures
            final(self).wf(),
            ({
                let name = match change {
                    ServerServiceChange::Add(cfg) => cfg.name@,
                    ServerServiceChange::Delete(name) => name@,
                };
                &&& final(self).services.lookup(name_digest(name)) == (match change {
                    ServerServiceChange::Add(cfg) => Some(cfg),
                    ServerServiceChange::Delete(_) => None,
                })
                &&& forall|id: Seq<u8>|
                    id != name_digest(name) ==> final(self).services.lookup(id) == old(
                        self,
                    ).services.lookup(id) && final(self).compression_states.lookup(id) == old(
                        self,
                    ).compression_states.lookup(id)
                &&& final(self).compression_states.lookup(name_digest(name)) is None
                &&& !final(self).control_channels.has_service(name_digest(name))
                &&& control::channel_dropped(
                    old(self).control_channels,
                    final(self).control_channels,
                    name_digest(name),
                    dropped,
                )
                &&& match (old(self).stats, final(self).stats) {
                    (Some(before), Some(after)) => after.services.lookup(name) == (match change {
                        ServerServiceChange::Add(_) => Some(stats),
                        ServerServiceChange::Delete(_) => None,
                    }) && forall|id: Seq<char>|
                        id != name ==> after.services.lookup(id) == before.services.lookup(id),
                    (None, None) => true,
                    _ => false,
                }
            }),
    {
        match change {
            ServerServiceChange::Add(cfg) => self.add_service(cfg, stats),
            ServerServiceChange::Delete(name) => self.delete_service(&name),
        }
    }

    /// Makes way for a control channel of a service that was looked up and authenticated:
    /// the one that the service had is dropped, because a control channel does not report
    /// back when it is dead, and dropping it lets the client reconnect. A dictionary state
    /// is called for only if the service is still configured as it was.
    pub fn make_way(&mut self, digest: &Digest, service: &ServerServiceConfig) -> (r: (
        StateNeed,
        Option<Channel<H>>,
    ))
        requires
            old(self).wf(),
        ensures
            final(self).wf(),
            final(self).services == old(self).services,
            final(self).compression_states == old(self).compression_states,
            final(self).stats == old(self).stats,
            state_need(*old(self), digest@, *service, r.0),
            !final(self).control_channels.has_service(digest@),
            control::channel_dropped(
                old(self).control_channels,
                final(self).control_channels,
                digest@,
                r.1,
            ),
    {
        let need = if control::still_current(&self.services, digest, service) {
            self.compression_state_need(digest, service)
        } else {
            StateNeed::NoTraining
        };
        let dropped = self.control_channels.remove1(digest);
        (need, dropped)
    }

    /// Enters a control channel that was accepted. One whose session key is in use is handed
    /// back.
    pub fn register(&mut self, channel: Channel<H>) -> (r: Result<(), Channel<H>>)
        requires
            old(self).wf(),
        ensures
            final(self).wf(),
            final(self).services == old(self).services,
            final(self).compression_states == old(self).compression_states,
            final(self).stats == old(self).stats,
            ({
                let before = old(self).control_channels;
                let after = final(self).control_channels;
                let taken = before.has_service(channel.service@) || before.has_key(channel.key@);
                match r {
                    Ok(()) => !taken && after.channels() == before.channels().push(channel),
                    Err(c) => taken && c == channel && after.channels() == before.channels(),
                }
            }),
    {
        self.control_channels.insert(channel)
    }

    /// Says whether a service has a dictionary state, needs one, or none is kept for it.
    pub fn compression_state_need(&self, digest: &Digest, service: &ServerServiceConfig) -> (r:
        StateNeed)
        requires
            self.wf(),
        ensures
            match r {
                StateNeed::NoTraining => !state::trains_dictionaries(service@),
                StateNeed::Existing => state::trains_dictionaries(service@)
                    && self.compression_states.contains(digest@),
                StateNeed::Create(new) => state::trains_dictionaries(service@)
                    && !self.compression_states.contains(digest@) && state::initial_state(
                    service@,
                    new,
                ),
            },
    {
        match state::new_service_compression_state(service) {
            None => StateNeed::NoTraining,
            Some(new) => {
                if self.compression_states.find(digest).is_some() {
                    StateNeed::Existing
                } else {
                    StateNeed::Create(new)
                }
            },
        }
    }
}

/// What the dictionary state of a service that was looked up calls for. A service whose
/// configuration has changed since calls for none.
pub open spec fn state_need<H, C, S>(
    server: Server<H, C, S>,
    digest: Seq<u8>,
    service: ServerServiceConfig,
    r: StateNeed,
) -> bool {
    let current = server.services.lookup(digest) is Some && server.services.lookup(digest)->0@
        == service@;
    match r {
        StateNeed::NoTraining => !current || !state::trains_dictionaries(service@),
        StateNeed::Existing => current && state::trains_dictionaries(service@)
            && server.compression_states.contains(digest),
        StateNeed::Create(new) => current && state::trains_dictionaries(service@)
            && !server.compression_states.contains(digest) && state::initial_state(service@, new),
    }
}

/// A data channel that presents the session key of a control channel belongs to that control
/// channel and to no other.
pub proof fn law_a_session_key_belongs_to_one_channel<H>(
    map: ControlChannelMap<H>,
    a: Channel<H>,
    b: Channel<H>,
)
    requires
        map.wf(),
        map.channels().contains(a),
        map.channels().contains(b),
        a.key@ == b.key@,
    ensures
        a == b,
{
    let i = choose|i: int| 0 <= i < map.channels().len() && map.channels()[i] == a;
    let j = choose|j: int| 0 <= j < map.channels().len() && map.channels()[j] == b;
    if i < j {
        assert(map.channels()[i].key@ != map.channels()[j].key@);
    } else if j < i {
        assert(map.channels()[j].key@ != map.channels()[i].key@);
    }
}

/// A change of the configuration takes hold at once: a client that asks for a service that was
/// added finds it as it is configured now, one that asks for a service that was deleted learns
/// that there is none, and in either case the service has no control channel and nothing that
/// was trained for it. All other services stay.
pub proof fn law_a_change_takes_hold_at_once<H, C, S>(
    change: ServerServiceChange,
    stats: S,
    digest: Digest,
    other: Seq<u8>,
)
    requires
        digest@ == protocol::sha256(
            encode_utf8(
                match change {
                    ServerServiceChange::Add(cfg) => cfg.name@,
                    ServerServiceChange::Delete(name) => name@,
                },
            ),
        ),
        other != digest@,
    ensures
        forall|p: &mut Server<H, C, S>, dropped: Option<Channel<H>>|
            #[trigger] call_ensures(Server::<H, C, S>::handle_hot_reload, (p, change, stats), dropped)
                ==> {
                let after = *final(p);
                &&& match change {
                    ServerServiceChange::Add(cfg) => after.services.lookup(digest@) == Some(cfg),
                    ServerServiceChange::Delete(_) => after.services.lookup(digest@) is None,
                }
                &&& after.compression_states.lookup(digest@) is None
                &&& !after.control_channels.has_service(digest@)
                &&& after.services.lookup(other) == p.services.lookup(other)
                &&& after.compression_states.lookup(other) == p.compression_states.lookup(other)
            },
{
}

} // verus!
