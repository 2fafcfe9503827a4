//! Compression of a service: its dictionaries, their training, and the commands that
//! announce them.
use crate::compression::train;
use crate::compression::train::{train_dictionary, TrainError};
use crate::config;
use crate::config::{LoadedDictionary, ServerServiceConfig, ServerServiceView, ServiceType};
use crate::constants::DEFAULT_ZSTD_LEVEL;
use crate::protocol;
use crate::protocol::{ControlChannelCmd, DataChannelCmd, Digest};
use crate::server::sampler;
use crate::server::sampler::SampleBuffer;
use vstd::prelude::*;

verus! {

/// How far the training of a dictionary is.
#[derive(Debug)]
pub enum SamplerState {
    Sampling(SampleBuffer),
    Trained,
    Failed,
}

/// A dictionary that was trained, and the commands that announce it.
pub struct Generation {
    pub digest: Digest,
    pub dictionary: LoadedDictionary,
    pub level: i32,
    pub tcp_cmd_bytes: Vec<u8>,
    pub udp_cmd_bytes: Vec<u8>,
}

impl Generation {
    /// The commands and the digest are those of the dictionary.
    pub open spec fn wf(self) -> bool {
        &&& self.digest == self.dictionary.digest
        &&& self.tcp_cmd_bytes@ == (DataChannelCmd::StartForwardTcpZstd {
            dict_digest: self.dictionary.digest,
        }).encoding()
        &&& self.udp_cmd_bytes@ == (DataChannelCmd::StartForwardUdpZstd {
            dict_digest: self.dictionary.digest,
        }).encoding()
    }

    pub fn new(dictionary: LoadedDictionary) -> (r: Self)
        ensures
            r.wf(),
            r.dictionary == dictionary,
            r.level == DEFAULT_ZSTD_LEVEL,
    {
        Generation::with_level(dictionary, DEFAULT_ZSTD_LEVEL)
    }

    pub fn with_level(dictionary: LoadedDictionary, level: i32) -> (r: Self)
        ensures
            r.wf(),
            r.dictionary == dictionary,
            r.level == level,
    {
        let digest = dictionary.digest;
        let tcp_cmd_bytes = DataChannelCmd::StartForwardTcpZstd { dict_digest: digest }.encode();
        let udp_cmd_bytes = DataChannelCmd::StartForwardUdpZstd { dict_digest: digest }.encode();
        Generation { digest, dictionary, level, tcp_cmd_bytes, udp_cmd_bytes }
    }

    /// The control command that gives the dictionary to the client.
    pub fn push_cmd(&self) -> (r: ControlChannelCmd)
        ensures
            r matches ControlChannelCmd::UpdateCompressionDict { digest, dictionary } && digest
                == self.digest && dictionary@ == self.dictionary.bytes@,
    {
        ControlChannelCmd::UpdateCompressionDict {
            digest: self.digest,
            dictionary: protocol::slice_to_vec(self.dictionary.bytes.as_slice()),
        }
    }
}

impl Clone for Generation {
    fn clone(&self) -> (r: Self)
        ensures
            r.digest == self.digest,
            r.dictionary@ == self.dictionary@,
            r.level == self.level,
            r.tcp_cmd_bytes@ == self.tcp_cmd_bytes@,
            r.udp_cmd_bytes@ == self.udp_cmd_bytes@,
            self.wf() ==> r.wf(),
    {
        let r = Generation {
            digest: self.digest,
            dictionary: self.dictionary.clone(),
            level: self.level,
            tcp_cmd_bytes: protocol::slice_to_vec(self.tcp_cmd_bytes.as_slice()),
            udp_cmd_bytes: protocol::slice_to_vec(self.udp_cmd_bytes.as_slice()),
        };
        proof {
            protocol::lemma_same_digest(r.dictionary.digest, self.dictionary.digest);
        }
        r
    }
}

/// The training of the dictionary of a service. A dictionary is trained at most once.
pub struct ServiceCompressionState {
    pub sampler: SamplerState,
    pub sampling_active: bool,
    pub sampling_ready: bool,
    pub generation: Option<Generation>,
    pub level: i32,
}

impl ServiceCompressionState {
    pub open spec fn wf(self) -> bool {
        &&& self.sampler matches SamplerState::Sampling(buffer) ==> buffer.wf()
        &&& self.sampling_active ==> !self.sampling_ready && self.sampler is Sampling
            && self.generation is None
        &&& self.sampling_ready ==> self.sampler is Sampling && self.generation is None
        &&& self.generation is Some <==> self.sampler is Trained
        &&& self.generation is Some ==> self.generation->0.wf()
    }

    /// The samples were taken: no more are recorded, and none will be ready again.
    pub open spec fn exhausted(self) -> bool {
        !self.sampling_active && !self.sampling_ready
    }

    pub fn new(sample_window: u64) -> (r: Self)
        ensures
            r.wf(),
            r.level == DEFAULT_ZSTD_LEVEL,
            r.generation is None,
            r.sampling_active == (sample_window > 0),
            r.sampling_ready == (sample_window == 0),
            r.sampler matches SamplerState::Sampling(buffer) && buffer.data@.len() == 0
                && buffer.sizes@.len() == 0 && buffer.window() == (if sample_window
                <= usize::MAX {
                sample_window as usize
            } else {
                usize::MAX
            }),
    {
        ServiceCompressionState::with_level(sample_window, DEFAULT_ZSTD_LEVEL)
    }

    pub fn with_level(sample_window: u64, level: i32) -> (r: Self)
        ensures
            r.wf(),
            r.level == level,
            r.generation is None,
            r.sampling_active == (sample_window > 0),
            r.sampling_ready == (sample_window == 0),
            r.sampler matches SamplerState::Sampling(buffer) && buffer.data@.len() == 0
                && buffer.sizes@.len() == 0 && buffer.window() == (if sample_window
                <= usize::MAX {
                sample_window as usize
            } else {
                usize::MAX
            }),
    {
        ServiceCompressionState {
            sampler: SamplerState::Sampling(SampleBuffer::new(sample_window)),
            sampling_active: sample_window > 0,
            sampling_ready: sample_window == 0,
            generation: None,
            level,
        }
    }

    /// Records forwarded plaintext while the service is sampling. `true`: the window is
    /// full, and whoever waits for the samples is to be woken.
    pub fn record_plaintext(&mut self, bytes: &[u8]) -> (notify: bool)
        requires
            old(self).wf(),
        ensures
            final(self).wf(),
            final(self).level == old(self).level,
            final(self).generation == old(self).generation,
            old(self).exhausted() ==> final(self).exhausted(),
            !old(self).sampling_active ==> !notify && *final(self) == *old(self),
            old(self).sampling_active ==> {
                let before = old(self).sampler->Sampling_0;
                let after = final(self).sampler->Sampling_0;
                &&& final(self).sampler is Sampling
                &&& sampler::appended(before, bytes@, after)
                &&& notify == (after.data@.len() == before.window())
                &&& final(self).sampling_ready == notify
                &&& final(self).sampling_active == !notify
            },
    {
        if !self.sampling_active {
            return false;
        }
        match &mut self.sampler {
            SamplerState::Sampling(buffer) => {
                if buffer.append(bytes) {
                    self.sampling_active = false;
                    self.sampling_ready = true;
                    true
                } else {
                    false
                }
            },
            _ => {
                self.sampling_active = false;
                false
            },
        }
    }

    pub fn is_sampling_active(&self) -> (r: bool)
        ensures
            r == self.sampling_active,
    {
        self.sampling_active
    }

    /// Takes the samples once the window is full, and only once.
    pub fn take_ready_samples(&mut self) -> (r: Option<SampleBuffer>)
        requires
            old(self).wf(),
        ensures
            final(self).wf(),
            final(self).level == old(self).level,
            final(self).generation == old(self).generation,
            final(self).sampling_active == old(self).sampling_active,
            !final(self).sampling_ready,
            r is Some ==> final(self).exhausted(),
            old(self).exhausted() ==> final(self).exhausted() && r is None,
            r is Some <==> old(self).sampling_ready,
            r matches Some(samples) ==> {
                let before = old(self).sampler->Sampling_0;
                &&& samples.wf()
                &&& samples.data@ == before.data@
                &&& samples.sizes@ == before.sizes@
                &&& samples.pending() == before.pending()
                &&& samples.window() == before.window()
                &&& final(self).sampler matches SamplerState::Sampling(rest) && rest.data@.len()
                    == 0 && rest.window() == before.window()
            },
            r is None ==> final(self).sampler == old(self).sampler,
    {
        if !self.sampling_ready {
            return None;
        }
        self.sampling_ready = false;
        match &mut self.sampler {
            SamplerState::Sampling(buffer) => Some(buffer.take()),
            _ => None,
        }
    }

    /// Whether the traffic of a new visitor is to be sampled.
    pub fn tcp_sampling_state(&mut self) -> (r: bool)
        requires
            old(self).wf(),
        ensures
            *final(self) == *old(self),
            r == old(self).sampling_active,
    {
        if !self.sampling_active {
            return false;
        }
        match &self.sampler {
            SamplerState::Sampling(_) => true,
            _ => {
                self.sampling_active = false;
                false
            },
        }
    }

    /// What a new visitor gets: the generation at this moment.
    pub fn tcp_generation_snapshot(&self) -> (r: Option<Generation>)
        requires
            self.wf(),
        ensures
            r is Some <==> self.generation is Some,
            r matches Some(g) ==> g.wf() && g.dictionary@ == self.generation->0.dictionary@
                && g.level == self.generation->0.level && g.digest == self.generation->0.digest,
    {
        match &self.generation {
            Some(g) => Some(g.clone()),
            None => None,
        }
    }

    /// Takes what came of training. A dictionary becomes the generation of the service; a
    /// failure leaves the service without one for good.
    pub fn finish_training(&mut self, trained: Result<Vec<u8>, TrainError>)
        requires
            old(self).wf(),
            old(self).exhausted(),
        ensures
            final(self).wf(),
            final(self).exhausted(),
            final(self).level == old(self).level,
            match trained {
                Ok(bytes) => final(self).sampler is Trained && final(self).generation is Some
                    && final(self).generation->0.dictionary@ == config::dictionary_of(bytes@)
                    && final(self).generation->0.level == old(self).level,
                Err(_) => final(self).sampler is Failed && final(self).generation is None,
            },
    {
        match trained {
            Ok(bytes) => {
                let dictionary = LoadedDictionary::from_bytes(bytes);
                self.generation = Some(Generation::with_level(dictionary, self.level));
                self.sampler = SamplerState::Trained;
            },
            Err(_) => {
                self.generation = None;
                self.sampler = SamplerState::Failed;
            },
        }
    }
}

/// The largest dictionary that is asked for, as a size in memory.
pub fn dictionary_size(max_size: u64) -> (r: usize)
    ensures
        r == (if max_size <= usize::MAX {
            max_size as usize
        } else {
            usize::MAX
        }),
{
    if max_size <= usize::MAX as u64 {
        max_size as usize
    } else {
        usize::MAX
    }
}

/// Trains a dictionary from samples that were taken. It is an error when the last sample is
/// not complete, when there are too few samples, and when no allocation can have the size.
/// Otherwise the outcome is that of zstd on these samples with this limit.
pub fn train_samples(samples: &SampleBuffer, max_size: u64) -> (r: Result<Vec<u8>, TrainError>)
    requires
        samples.wf(),
    ensures
        max_size > isize::MAX || samples.pending() > 0 || samples.sizes@.len()
            < train::MIN_SAMPLE_COUNT ==> r == Err::<Vec<u8>, TrainError>(TrainError),
        r matches Ok(dictionary) ==> dictionary@.len() > 0 && train::zstd_trains(
            samples.data@,
            samples.sizes@,
            max_size as usize,
            Some(dictionary@),
        ),
        max_size <= isize::MAX && r is Err ==> train::zstd_trains(
            samples.data@,
            samples.sizes@,
            max_size as usize,
            None,
        ),
{
    train_dictionary(
        samples.data.as_slice(),
        samples.sizes.as_slice(),
        dictionary_size(max_size),
    )
}

/// What the training of a dictionary reports.
pub fn training_log(trained: bool) -> (r: &'static str)
    ensures
        r@ == (if trained {
            "trained compression dictionary"@
        } else {
            "dictionary training failed; service stays dictionary-less"@
        }),
{
    if trained {
        "trained compression dictionary"
    } else {
        "dictionary training failed; service stays dictionary-less"
    }
}

/// Whether dictionaries are trained for a service: a TCP service with compression, without
/// a static dictionary, that does not opt out.
pub open spec fn trains_dictionaries(s: ServerServiceView) -> bool {
    s.service_type == ServiceType::Tcp && s.compression is Some && s.compression_dictionary is None
        && s.compression_auto_dictionary == Some(true)
}

/// The level of the encoder of a service.
pub open spec fn service_level(s: ServerServiceView) -> i32 {
    match s.compression_level {
        Some(level) => level,
        None => DEFAULT_ZSTD_LEVEL,
    }
}

/// The window that a service samples.
pub open spec fn service_window(s: ServerServiceView) -> u64 {
    match s.compression_sample_window {
        Some(n) => n,
        None => 0,
    }
}

/// The state that a service which trains dictionaries starts with: nothing is sampled yet.
pub open spec fn initial_state(s: ServerServiceView, state: ServiceCompressionState) -> bool {
    &&& state.wf()
    &&& state.generation is None
    &&& state.level == service_level(s)
    &&& state.sampling_active == (service_window(s) > 0)
    &&& state.sampling_ready == (service_window(s) == 0)
    &&& state.sampler matches SamplerState::Sampling(buffer) && buffer.data@.len() == 0
        && buffer.sizes@.len() == 0 && buffer.window() == (if service_window(s) <= usize::MAX {
        service_window(s) as usize
    } else {
        usize::MAX
    })
}

/// The state for a service that trains dictionaries, or none.
pub fn new_service_compression_state(service: &ServerServiceConfig) -> (r: Option<
    ServiceCompressionState,
>)
    ensures
        r is Some <==> trains_dictionaries(service@),
        r matches Some(state) ==> initial_state(service@, state),
{
    let auto = match service.compression_auto_dictionary {
        Some(auto) => auto,
        None => false,
    };
    if service.service_type != ServiceType::Tcp || service.compression.is_none()
        || service.compression_dictionary.is_some() || !auto {
        return None;
    }
    let window: u64 = match service.compression_sample_window {
        Some(n) => n,
        None => 0,
    };
    let level: i32 = match service.compression_level {
        Some(level) => level,
        None => DEFAULT_ZSTD_LEVEL,
    };
    Some(ServiceCompressionState::with_level(window, level))
}

/// Dictionaries are trained for a service exactly if it is a TCP service with compression and
/// without a static dictionary that does not opt out. It starts without a generation, with its
/// own level or else with level 19, and samples as long as it has a window.
pub proof fn law_which_services_train(
    service: &ServerServiceConfig,
    r: Option<ServiceCompressionState>,
)
    requires
        call_ensures(new_service_compression_state, (service,), r),
    ensures
        r is Some <==> service.service_type == ServiceType::Tcp && service.compression is Some
            && service.compression_dictionary is None && service.compression_auto_dictionary == Some(
            true,
        ),
        r matches Some(state) ==> {
            &&& state.wf()
            &&& state.generation is None
            &&& state.level == (match service.compression_level {
                Some(level) => level,
                None => 19i32,
            })
            &&& state.sampling_active <==> (service.compression_sample_window matches Some(n) && n
                > 0)
            &&& state.sampler matches SamplerState::Sampling(buffer) && buffer.data@.len() == 0
        },
{
}

/// The samples are the traffic itself, in order and from its start, as much of it as the window
/// holds. Whoever waits for them is woken exactly when the window is full, and from then on
/// nothing more is sampled.
pub proof fn law_samples_are_the_traffic(bytes: &[u8])
    ensures
        forall|s: &mut ServiceCompressionState, notify: bool|
            #[trigger] call_ensures(ServiceCompressionState::record_plaintext, (s, bytes), notify)
                && s.wf() && s.sampling_active ==> {
                let before = s.sampler->Sampling_0;
                let after = final(s).sampler->Sampling_0;
                let all = before.data@ + bytes@;
                &&& final(s).sampler is Sampling
                &&& all.len() <= before.window() ==> after.data@ == all
                &&& all.len() > before.window() >= before.data@.len() ==> after.data@ == all.take(
                    before.window() as int,
                )
                &&& notify <==> after.data@.len() == before.window()
                &&& final(s).sampling_active <==> !notify
            },
        forall|s: &mut ServiceCompressionState, notify: bool|
            #[trigger] call_ensures(ServiceCompressionState::record_plaintext, (s, bytes), notify)
                && !s.sampling_active ==> !notify && *final(s) == *s,
{
    assert forall|s: &mut ServiceCompressionState, notify: bool|
        #[trigger] call_ensures(ServiceCompressionState::record_plaintext, (s, bytes), notify)
            && s.wf() && s.sampling_active implies ({
        let before = s.sampler->Sampling_0;
        let after = final(s).sampler->Sampling_0;
        let all = before.data@ + bytes@;
        &&& all.len() <= before.window() ==> after.data@ == all
        &&& all.len() > before.window() >= before.data@.len() ==> after.data@ == all.take(
            before.window() as int,
        )
    }) by {
        let before = s.sampler->Sampling_0;
        let after = final(s).sampler->Sampling_0;
        let all = before.data@ + bytes@;
        let window = before.window();
        assert(sampler::appended(before, bytes@, after));
        if all.len() <= window {
            assert(after.data@ =~= all);
        } else if before.data@.len() <= window {
            assert(after.data@ =~= all.take(window as int));
        }
    }
}

/// A dictionary that was trained is what visitors get from then on, at the level of the
/// service, announced by its digest. Where training failed there is none, for good.
pub proof fn law_a_trained_dictionary_is_what_visitors_get(trained: Result<Vec<u8>, TrainError>)
    ensures
        forall|s: &mut ServiceCompressionState, r: Option<Generation>|
            #![trigger call_ensures(ServiceCompressionState::finish_training, (s, trained), ()), call_ensures(
                ServiceCompressionState::tcp_generation_snapshot,
                (final(s),),
                r,
            )]
            call_ensures(ServiceCompressionState::finish_training, (s, trained), ())
                && call_ensures(
                ServiceCompressionState::tcp_generation_snapshot,
                (final(s),),
                r,
            ) ==> match trained {
                Ok(bytes) => r matches Some(g) && g.dictionary.bytes@ == bytes@ && g.digest@
                    == protocol::sha256(bytes@) && g.level == s.level,
                Err(_) => r is None && final(s).sampler is Failed,
            },
{
}

} // verus!
