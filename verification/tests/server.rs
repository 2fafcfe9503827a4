use rathole::compression::train::{TrainError, MIN_SAMPLE_COUNT, TEST_MAX_DICT, TEST_WINDOW};
use rathole::config::{
    CompressionType, LoadedDictionary, MaskedString, ServerConfig, ServerServiceConfig,
    ServiceType,
};
use rathole::constants::DEFAULT_ZSTD_LEVEL;
use rathole::protocol::{
    digest, Ack, Auth, ControlChannelCmd, DataChannelCmd, Digest, Hello, SocketAddr, UdpTraffic,
    CURRENT_PROTO_VERSION, HASH_WIDTH_IN_BYTES,
};
use rathole::server::control::{
    authenticate, challenge, challenge_with, generate_service_hashmap, handle_connection,
    lookup_service, on_listen_event, plan_control_channel, session_key, still_current, Channel,
    Connection, ControlAction, ControlChannel, ControlChannelMap, ControlEvent, ListenAction,
    ListenEvent,
};
use rathole::server::observe::{ServerStats, ServiceStats};
use rathole::server::pool::{
    on_udp_event, plan_tcp_visitor, plan_udp, tcp_cmd, tcp_reuse_cmd, udp_cmd,
    visitor_deadline, wrap_stream, Arrival, CompressionCtx, Finished, PairStep, StreamPlan, TcpPool, UdpPoolAction,
    UdpPoolEvent, PAIRING_DEADLINE_MS, VISITOR_QUEUE_SIZE,
};
use rathole::server::registry::{Server, ServerServiceChange, StateNeed};
use rathole::server::sampler::{SampleBuffer, MAX_SAMPLE_SIZE, MIN_SAMPLE_SIZE};
use rathole::server::state::{
    dictionary_size, new_service_compression_state, train_samples, training_log, Generation,
    SamplerState, ServiceCompressionState,
};

type TestServer = Server<u32, ServiceCompressionState, ServiceStats>;

fn service(name: &str) -> ServerServiceConfig {
    ServerServiceConfig::with_name(name)
}

fn compression_service(name: &str, service_type: ServiceType) -> ServerServiceConfig {
    let mut s = ServerServiceConfig::with_name(name);
    s.service_type = service_type;
    s.compression = Some(CompressionType::Zstd);
    s.compression_auto_dictionary = Some(true);
    s
}

fn dictionary_with_digest(digest: Digest) -> LoadedDictionary {
    LoadedDictionary { digest, ..Default::default() }
}

fn generation_with_digest(digest: Digest) -> Generation {
    Generation::new(dictionary_with_digest(digest))
}

fn server_for_hot_reload_tests() -> TestServer {
    Server::from(&ServerConfig::default(), None)
}

fn update(digest: Digest) -> ControlChannelCmd {
    ControlChannelCmd::UpdateCompressionDict { digest, dictionary: Vec::new() }
}

fn sends(action: ControlAction, expected: ControlChannelCmd) -> bool {
    matches!(action, ControlAction::Send(cmd) if cmd == expected)
}

#[test]
fn control_channel_pushes_existing_generation_before_queued_data_channel_request() {
    let digest = [7; HASH_WIDTH_IN_BYTES];
    let mut channel = ControlChannel::new(0, true);

    let first = channel.on_event(ControlEvent::Started(Some(generation_with_digest(digest))));
    let second = channel.on_event(ControlEvent::Request { deadline: None, now: 0 });

    assert!(sends(first, update(digest)));
    assert!(sends(second, ControlChannelCmd::CreateDataChannel));
    assert!(matches!(channel.on_event(ControlEvent::Shutdown), ControlAction::Stop));
}

#[test]
fn control_channel_without_generation_receiver_only_sends_existing_commands() {
    let mut channel = ControlChannel::new(0, false);

    assert!(matches!(channel.on_event(ControlEvent::Started(None)), ControlAction::Wait));
    let command = channel.on_event(ControlEvent::Request { deadline: None, now: 0 });

    assert!(sends(command, ControlChannelCmd::CreateDataChannel));
    let generation = Some(generation_with_digest([7; HASH_WIDTH_IN_BYTES]));
    assert!(matches!(channel.on_event(ControlEvent::Generation(generation)), ControlAction::Wait));
}

#[test]
fn control_channel_pushes_live_generation_once() {
    let digest = [9; HASH_WIDTH_IN_BYTES];
    let mut channel = ControlChannel::new(0, true);
    assert!(matches!(channel.on_event(ControlEvent::Started(None)), ControlAction::Wait));

    let first = channel.on_event(ControlEvent::Generation(Some(generation_with_digest(digest))));
    let second = channel.on_event(ControlEvent::Request { deadline: None, now: 0 });

    assert!(sends(first, update(digest)));
    assert!(sends(second, ControlChannelCmd::CreateDataChannel));
}

#[test]
fn control_channel_heartbeat_is_unaffected_by_generation_receiver() {
    let mut channel = ControlChannel::new(1, true);
    assert!(channel.heartbeat_enabled());

    assert!(sends(channel.on_event(ControlEvent::Heartbeat), ControlChannelCmd::HeartBeat));
    assert!(matches!(channel.on_event(ControlEvent::GenerationsClosed), ControlAction::Wait));
    assert!(sends(channel.on_event(ControlEvent::Heartbeat), ControlChannelCmd::HeartBeat));

    let mut silent = ControlChannel::new(0, true);
    assert!(!silent.heartbeat_enabled());
    assert!(matches!(silent.on_event(ControlEvent::Heartbeat), ControlAction::Wait));
}

#[test]
fn requests_that_are_too_late_are_skipped() {
    let mut channel = ControlChannel::new(0, false);
    let late = ControlEvent::Request { deadline: Some(10), now: 10 };
    assert!(matches!(channel.on_event(late), ControlAction::Wait));
    let in_time = ControlEvent::Request { deadline: Some(10), now: 9 };
    assert!(sends(channel.on_event(in_time), ControlChannelCmd::CreateDataChannel));
    assert!(matches!(channel.on_event(ControlEvent::WriteFailed), ControlAction::Stop));
    assert!(matches!(channel.on_event(ControlEvent::RequestsClosed), ControlAction::Stop));
}

fn trained_state(digest: Digest) -> ServiceCompressionState {
    let mut state = ServiceCompressionState::new(1024);
    state.sampling_active = false;
    state.sampler = SamplerState::Trained;
    state.generation = Some(generation_with_digest(digest));
    state
}

#[test]
fn tcp_generation_snapshot_keeps_command_and_dictionary_on_the_same_generation() {
    let state = trained_state([7; HASH_WIDTH_IN_BYTES]);

    let snapshot = state.tcp_generation_snapshot().unwrap();

    assert_eq!(
        snapshot.tcp_cmd_bytes,
        DataChannelCmd::StartForwardTcpZstd { dict_digest: snapshot.dictionary.digest }.encode()
    );
    assert_eq!(
        snapshot.udp_cmd_bytes,
        DataChannelCmd::StartForwardUdpZstd { dict_digest: snapshot.dictionary.digest }.encode()
    );
}

#[test]
fn tcp_generation_swap_does_not_change_an_existing_visitor_snapshot() {
    let old_digest = [3; HASH_WIDTH_IN_BYTES];
    let new_digest = [5; HASH_WIDTH_IN_BYTES];
    let mut state = trained_state(old_digest);
    let visitor_one = state.tcp_generation_snapshot().unwrap();

    state.generation = Some(generation_with_digest(new_digest));
    let visitor_two = state.tcp_generation_snapshot().unwrap();

    assert_eq!(visitor_one.digest, old_digest);
    assert_eq!(visitor_one.dictionary.digest, old_digest);
    assert_eq!(visitor_two.digest, new_digest);
    assert_eq!(visitor_two.dictionary.digest, new_digest);
}

#[test]
fn hot_reload_add_evicts_existing_service_compression_state() {
    let service = compression_service("reloaded", ServiceType::Tcp);
    let service_digest = digest(b"reloaded");
    let mut server = server_for_hot_reload_tests();
    server.compression_states.insert(service_digest, trained_state([7; HASH_WIDTH_IN_BYTES]));
    let stats = ServiceStats::from_config(&service);

    server.handle_hot_reload(ServerServiceChange::Add(service), stats);

    assert!(server.compression_states.get(&service_digest).is_none());
    assert!(server.services.get(&service_digest).is_some());
}

#[test]
fn hot_reload_delete_evicts_existing_service_compression_state() {
    let service_digest = digest(b"deleted");
    let mut server = server_for_hot_reload_tests();
    server.compression_states.insert(service_digest, ServiceCompressionState::new(1024));
    let stats = ServiceStats::from_config(&service("deleted"));

    server.handle_hot_reload(ServerServiceChange::Delete("deleted".to_string()), stats);

    assert!(server.compression_states.get(&service_digest).is_none());
    assert!(server.services.get(&service_digest).is_none());
}

#[test]
fn hot_reload_updates_observe_stats() {
    let mut server: TestServer = Server::from(&ServerConfig::default(), Some(ServerStats::new()));
    let echo = "echo".to_string();
    assert!(server.stats.as_ref().unwrap().service(&echo).is_none());

    let mut cfg = service("echo");
    cfg.bind_addr = "127.0.0.1:9".to_string();
    let stats = ServiceStats::from_config(&cfg);
    server.handle_hot_reload(ServerServiceChange::Add(cfg), stats);
    assert!(server.stats.as_ref().unwrap().service(&echo).is_some());

    let stats = ServiceStats::from_config(&service("echo"));
    server.handle_hot_reload(ServerServiceChange::Delete("echo".to_string()), stats);
    assert!(server.stats.as_ref().unwrap().service(&echo).is_none());
}

#[test]
fn hot_reload_drops_the_control_channel_of_the_service_alone() {
    let mut server = server_for_hot_reload_tests();
    let (a, b) = (digest(b"a"), digest(b"b"));
    let channel = |service, key, handle| Channel { service, key, handle };
    assert!(server.control_channels.insert(channel(a, [1; 32], 10)).is_ok());
    assert!(server.control_channels.insert(channel(b, [2; 32], 20)).is_ok());

    let dropped = server
        .handle_hot_reload(
            ServerServiceChange::Delete("a".to_string()),
            ServiceStats::from_config(&service("a")),
        )
        .unwrap();

    assert_eq!(dropped.handle, 10);
    assert!(server.control_channels.get2(&[1; 32]).is_none());
    assert_eq!(server.control_channels.get2(&[2; 32]).unwrap().handle, 20);
}

#[test]
fn udp_auto_dictionary_service_does_not_create_compression_state() {
    let service = compression_service("udp", ServiceType::Udp);
    let server = server_for_hot_reload_tests();

    assert!(new_service_compression_state(&service).is_none());
    assert!(matches!(
        server.compression_state_need(&digest(b"udp"), &service),
        StateNeed::NoTraining
    ));
}

#[test]
fn static_dictionary_service_does_not_create_auto_compression_state() {
    let mut service = compression_service("static", ServiceType::Tcp);
    service.compression_dictionary = Some("dictionary.bin".to_string());
    service.compression_auto_dictionary = Some(false);
    let server = server_for_hot_reload_tests();

    assert!(new_service_compression_state(&service).is_none());
    assert!(matches!(
        server.compression_state_need(&digest(b"static"), &service),
        StateNeed::NoTraining
    ));
}

#[test]
fn a_service_has_one_dictionary_state() {
    let mut service = compression_service("auto", ServiceType::Tcp);
    service.compression_sample_window = Some(4096);
    service.compression_level = Some(5);
    let key = digest(b"auto");
    let mut server = server_for_hot_reload_tests();
    let StateNeed::Create(state) = server.compression_state_need(&key, &service) else {
        panic!("the service trains dictionaries");
    };
    assert!(state.is_sampling_active());
    assert_eq!(state.level, 5);
    server.compression_states.insert(key, state);
    assert!(matches!(server.compression_state_need(&key, &service), StateNeed::Existing));
}

#[test]
fn data_channel_commands_are_plain_when_compression_is_disabled() {
    let compression = None;

    let tcp = tcp_cmd(&compression);
    let udp = udp_cmd(&compression);

    assert_eq!(tcp, DataChannelCmd::StartForwardTcp);
    assert_eq!(udp, DataChannelCmd::StartForwardUdp);
    assert_eq!(tcp.encode(), DataChannelCmd::StartForwardTcp.encode());
    assert_eq!(udp.encode(), DataChannelCmd::StartForwardUdp.encode());
    assert!(matches!(wrap_stream(false, &None, DEFAULT_ZSTD_LEVEL), StreamPlan::Plain));
    assert_eq!(tcp_reuse_cmd(&None), DataChannelCmd::StartForwardTcpReuse);
}

#[test]
fn data_channel_commands_include_dictionary_digest_when_compression_is_enabled() {
    let digest = [7; HASH_WIDTH_IN_BYTES];
    let compression = Some(CompressionCtx {
        dict: Some(dictionary_with_digest(digest)),
        level: DEFAULT_ZSTD_LEVEL,
    });

    let tcp = tcp_cmd(&compression);
    let udp = udp_cmd(&compression);

    assert_eq!(tcp, DataChannelCmd::StartForwardTcpZstd { dict_digest: digest });
    assert_eq!(udp, DataChannelCmd::StartForwardUdpZstd { dict_digest: digest });
    assert_eq!(
        tcp.encode(),
        DataChannelCmd::StartForwardTcpZstd { dict_digest: digest }.encode()
    );
    assert_eq!(
        udp.encode(),
        DataChannelCmd::StartForwardUdpZstd { dict_digest: digest }.encode()
    );
    assert!(matches!(
        wrap_stream(true, &compression.as_ref().unwrap().dict, DEFAULT_ZSTD_LEVEL),
        StreamPlan::Zstd { dictionary: Some(d), level }
            if d.digest == digest && level == DEFAULT_ZSTD_LEVEL
    ));
    assert_eq!(
        tcp_reuse_cmd(&compression),
        DataChannelCmd::StartForwardTcpZstdReuse { dict_digest: digest }
    );
}

#[test]
fn data_channel_commands_use_zero_digest_for_dictionary_free_compression() {
    let compression = Some(CompressionCtx { dict: None, level: DEFAULT_ZSTD_LEVEL });

    let tcp = tcp_cmd(&compression);
    let udp = udp_cmd(&compression);

    let digest = [0; HASH_WIDTH_IN_BYTES];
    assert_eq!(tcp, DataChannelCmd::StartForwardTcpZstd { dict_digest: digest });
    assert_eq!(udp, DataChannelCmd::StartForwardUdpZstd { dict_digest: digest });
}

#[test]
fn data_channel_commands_omit_level_even_when_not_default() {
    let digest = [7; HASH_WIDTH_IN_BYTES];
    let compression =
        Some(CompressionCtx { dict: Some(dictionary_with_digest(digest)), level: 19 });

    assert_eq!(
        tcp_cmd(&compression),
        DataChannelCmd::StartForwardTcpZstd { dict_digest: digest }
    );
    assert_eq!(
        udp_cmd(&compression),
        DataChannelCmd::StartForwardUdpZstd { dict_digest: digest }
    );
}

#[test]
fn a_generation_goes_before_plain_zstd() {
    let compression = Some(CompressionCtx { dict: None, level: 3 });
    let digest = [7; HASH_WIDTH_IN_BYTES];
    let generation = Some(Generation::with_level(dictionary_with_digest(digest), 11));

    let plan = plan_tcp_visitor(&compression, true, &generation, false);
    assert_eq!(plan.cmd, DataChannelCmd::StartForwardTcpZstd { dict_digest: digest });
    assert!(matches!(
        plan.stream,
        StreamPlan::Zstd { dictionary: Some(d), level: 11 } if d.digest == digest
    ));

    let plan = plan_tcp_visitor(&compression, true, &None, true);
    assert_eq!(
        plan.cmd,
        DataChannelCmd::StartForwardTcpZstdReuse { dict_digest: [0; HASH_WIDTH_IN_BYTES] }
    );
    assert!(matches!(plan.stream, StreamPlan::Zstd { dictionary: None, level: 3 }));

    let plan = plan_tcp_visitor(&None, false, &None, false);
    assert_eq!(plan.cmd.encode(), [0, 0, 0, 0]);
    assert!(matches!(plan.stream, StreamPlan::Plain));

    let plan = plan_udp(&compression);
    assert_eq!(
        plan.cmd,
        DataChannelCmd::StartForwardUdpZstd { dict_digest: [0; HASH_WIDTH_IN_BYTES] }
    );
}

fn successful_state() -> ServiceCompressionState {
    let mut state = ServiceCompressionState::new(TEST_WINDOW as u64);
    let base_size = TEST_WINDOW / MIN_SAMPLE_COUNT;
    let remainder = TEST_WINDOW % MIN_SAMPLE_COUNT;
    for index in 0..MIN_SAMPLE_COUNT {
        let sample_size = base_size + usize::from(index < remainder);
        let record = format!(
            "{{\"service\":\"tunnel-{index}\",\"payload\":\"rathole repetitive payload block {index}\"}}\n"
        );
        let sample: Vec<u8> =
            record.as_bytes().iter().copied().cycle().take(sample_size).collect();
        let full = state.record_plaintext(&sample);
        assert_eq!(full, index == MIN_SAMPLE_COUNT - 1);
    }
    state
}

fn failed_state() -> ServiceCompressionState {
    let mut state = ServiceCompressionState::new(50);
    assert!(state.record_plaintext(&[b'x'; 50]));
    state
}

fn train(state: &mut ServiceCompressionState) -> Result<Vec<u8>, TrainError> {
    let samples = state.take_ready_samples().unwrap();
    train_samples(&samples, TEST_MAX_DICT as u64)
}

#[test]
fn a_dictionary_is_asked_for_in_the_configured_size() {
    assert_eq!(dictionary_size(0), 0);
    assert_eq!(dictionary_size(4096), 4096);
    assert_eq!(dictionary_size(u64::MAX), usize::MAX);
}

#[test]
fn successful_training_swaps_generation_and_logs_transition() {
    let mut state = successful_state();

    let trained = train(&mut state);
    assert_eq!(training_log(trained.is_ok()), "trained compression dictionary");
    state.finish_training(trained);

    let generation = state.generation.as_ref().expect("successful training publishes a generation");
    assert_eq!(generation.digest, digest(generation.dictionary.bytes.as_slice()));
    assert!(matches!(state.sampler, SamplerState::Trained));
    assert!(!state.tcp_sampling_state());
}

#[test]
fn failed_training_is_terminal_and_does_not_retry() {
    let mut state = failed_state();

    let trained = train(&mut state);
    assert_eq!(
        training_log(trained.is_ok()),
        "dictionary training failed; service stays dictionary-less"
    );
    state.finish_training(trained);
    let notified = state.record_plaintext(&[b'y'; 4096]);

    assert!(matches!(state.sampler, SamplerState::Failed));
    assert!(state.generation.is_none());
    assert!(!notified);
    assert!(!state.is_sampling_active());
}

#[test]
fn completed_training_releases_taken_sample_buffer() {
    let mut state = failed_state();

    let trained = train(&mut state);
    state.finish_training(trained);

    assert!(state.take_ready_samples().is_none());
    assert!(matches!(state.sampler, SamplerState::Failed));
    assert!(
        matches!(state.sampler, SamplerState::Trained | SamplerState::Failed),
        "sampler still holds Sampling(_) buffer after training completed"
    );
}

#[test]
fn samples_are_cut_between_the_bounds() {
    let mut buffer = SampleBuffer::new(40_000);
    assert!(!buffer.append(&[1; 100]));
    assert!(!buffer.append(&[2; 200]));
    assert!(!buffer.append(&[3; 20_000]));
    assert!(buffer.append(&[4; 30_000]));
    assert_eq!(buffer.data.len(), 40_000);
    assert_eq!(buffer.sizes.iter().sum::<usize>(), 40_000);
    for size in &buffer.sizes {
        assert!(MIN_SAMPLE_SIZE <= *size && *size <= MAX_SAMPLE_SIZE, "{size}");
    }
    assert_eq!(buffer.sizes[0], MIN_SAMPLE_SIZE);

    let taken = buffer.take();
    assert_eq!(taken.data.len(), 40_000);
    assert!(buffer.data.is_empty());
    assert!(buffer.sizes.is_empty());
}

#[test]
fn a_tail_that_does_not_fit_takes_bytes_from_the_last_sample() {
    let mut buffer = SampleBuffer::new((MAX_SAMPLE_SIZE + 100) as u64);
    assert!(buffer.append(&vec![1; MAX_SAMPLE_SIZE + 200]));
    assert_eq!(buffer.sizes, [MAX_SAMPLE_SIZE + 100 - MIN_SAMPLE_SIZE, MIN_SAMPLE_SIZE]);

    // A window that is smaller than a sample holds no sample at all.
    let mut small = SampleBuffer::new(50);
    assert!(small.append(&[1; 60]));
    assert!(small.sizes.is_empty());
    assert_eq!(small.data.len(), 50);
}

fn configured() -> (ServerConfig, ServerServiceConfig) {
    let mut foo = service("foo");
    foo.token = Some(MaskedString::new("secret"));
    let mut config =
        ServerConfig { tcp_pool_size: 8, udp_pool_size: 2, ..ServerConfig::default() };
    config.heartbeat_interval = 30;
    config.services.insert("foo".to_string(), foo.clone());
    (config, foo)
}

#[test]
fn clients_are_let_in_by_their_token() {
    let (config, foo) = configured();
    let services = generate_service_hashmap(&config);
    assert_eq!(services.len(), 1);
    let found = lookup_service(&services, &digest(b"foo")).ok().unwrap();
    assert!(found.same(&foo));

    let (nonce, hello) = challenge();
    assert!(matches!(
        hello,
        Hello::ControlChannelHello(v, n) if v == CURRENT_PROTO_VERSION && n == nonce
    ));
    let key = session_key("secret", &nonce);
    assert_eq!(key, digest(&[&b"secret"[..], &nonce[..]].concat()));
    assert_eq!(authenticate(&found, &nonce, &Auth(key)).ok().unwrap(), key);

    let refusal = authenticate(&found, &nonce, &Auth(session_key("wrong", &nonce))).err().unwrap();
    assert_eq!(refusal.ack, Ack::AuthFailed);
    assert_eq!(refusal.reason, "Service foo failed the authentication");

    let refusal = lookup_service(&services, &[0xab; 32]).err().unwrap();
    assert_eq!(refusal.ack, Ack::ServiceNotExist);
    assert_eq!(refusal.reason, format!("No such a service {}", "ab".repeat(32)));
}

#[test]
fn nonces_differ_from_handshake_to_handshake() {
    let (first, _) = challenge();
    let (second, _) = challenge();
    assert_ne!(first, second);
    assert!(matches!(
        challenge_with([3; 32]),
        Hello::ControlChannelHello(_, n) if n == [3; 32]
    ));
}

#[test]
fn a_service_that_changed_during_the_handshake_is_noticed() {
    let (config, foo) = configured();
    let mut services = generate_service_hashmap(&config);
    let key = digest(b"foo");
    assert!(still_current(&services, &key, &foo));
    let mut changed = foo.clone();
    changed.nodelay = Some(false);
    services.insert(key, changed);
    assert!(!still_current(&services, &key, &foo));
    services.remove(&key);
    assert!(!still_current(&services, &key, &foo));
}

#[test]
fn a_new_control_channel_takes_the_place_of_the_old_one() {
    let mut map: ControlChannelMap<u32> = ControlChannelMap::new();
    let channel = |service: u8, key: u8, handle| Channel {
        service: [service; 32],
        key: [key; 32],
        handle,
    };
    assert!(map.insert(channel(1, 11, 100)).is_ok());
    assert!(map.insert(channel(2, 12, 200)).is_ok());
    assert!(map.insert(channel(1, 13, 300)).is_err());
    assert!(map.insert(channel(3, 11, 300)).is_err());
    assert_eq!(map.remove1(&[1; 32]).unwrap().handle, 100);
    assert!(map.insert(channel(1, 13, 300)).is_ok());
    assert!(map.get2(&[11; 32]).is_none());
    assert_eq!(map.get2(&[12; 32]).unwrap().handle, 200);
    assert_eq!(map.get2(&[13; 32]).unwrap().handle, 300);
    assert_eq!(map.remove1(&[1; 32]).unwrap().handle, 300);
    assert!(map.remove1(&[1; 32]).is_none());
}

#[test]
fn an_accepted_control_channel_replaces_the_one_of_its_service() {
    let (config, foo) = configured();
    let mut server: TestServer = Server::from(&config, None);
    let key = digest(b"foo");
    let channel = |key_byte: u8, handle| Channel { service: key, key: [key_byte; 32], handle };

    let (need, dropped) = server.make_way(&key, &foo);
    assert!(matches!(need, StateNeed::NoTraining));
    assert!(dropped.is_none());
    assert!(server.register(channel(1, 10)).is_ok());

    let (_, dropped) = server.make_way(&key, &foo);
    assert_eq!(dropped.unwrap().handle, 10);
    assert!(server.register(channel(2, 20)).is_ok());
    assert!(server.control_channels.get2(&[1; 32]).is_none());
    assert_eq!(server.control_channels.get2(&[2; 32]).unwrap().handle, 20);
    assert_eq!(server.register(channel(2, 30)).err().unwrap().handle, 30);
}

#[test]
fn a_service_that_changed_calls_for_no_dictionary_state() {
    let mut auto = compression_service("auto", ServiceType::Tcp);
    auto.compression_sample_window = Some(4096);
    let mut config = ServerConfig::default();
    config.services.insert("auto".to_string(), auto.clone());
    let mut server: TestServer = Server::from(&config, None);
    let key = digest(b"auto");
    assert!(matches!(server.make_way(&key, &auto).0, StateNeed::Create(_)));
    let mut changed = auto.clone();
    changed.nodelay = Some(true);
    assert!(matches!(server.make_way(&key, &changed).0, StateNeed::NoTraining));
}

#[test]
fn control_channels_are_planned_from_the_configuration() {
    let (config, mut foo) = configured();
    let plan = plan_control_channel(&foo, &config);
    assert_eq!(plan.preopen, 8);
    assert!(plan.compression.is_none());
    assert_eq!(plan.heartbeat_interval, 30);
    assert!(!plan.reuse);
    assert_eq!(plan.max_idle, 64);

    foo.connection_reuse = true;
    foo.connection_reuse_max_idle = Some(3);
    foo.compression = Some(CompressionType::Zstd);
    foo.compression_level = Some(7);
    let plan = plan_control_channel(&foo, &config);
    assert!(plan.reuse);
    assert_eq!(plan.max_idle, 3);
    assert_eq!(plan.compression.unwrap().level, 7);

    foo.service_type = ServiceType::Udp;
    assert_eq!(plan_control_channel(&foo, &config).preopen, 2);
}

#[test]
fn connections_are_told_apart_by_their_hello() {
    let hello = Hello::ControlChannelHello(CURRENT_PROTO_VERSION, [1; 32]);
    assert!(matches!(handle_connection(&hello), Connection::Control(d) if d == [1; 32]));
    let hello = Hello::DataChannelHello(CURRENT_PROTO_VERSION, [2; 32]);
    assert!(matches!(handle_connection(&hello), Connection::Data(k) if k == [2; 32]));
}

#[test]
fn listeners_go_on_after_failures() {
    for (event, action) in [
        (ListenEvent::IoError { retry_ms: Some(5) }, ListenAction::Sleep(5)),
        (ListenEvent::IoError { retry_ms: None }, ListenAction::Stop),
        (ListenEvent::TransportError, ListenAction::Continue),
        (ListenEvent::Accepted, ListenAction::Proceed),
        (ListenEvent::HandshakeFailed, ListenAction::Continue),
        (ListenEvent::HandshakeDone, ListenAction::Serve),
        (ListenEvent::RequestFailed, ListenAction::Stop),
        (ListenEvent::Update, ListenAction::Reload),
        (ListenEvent::Shutdown, ListenAction::Stop),
    ] {
        assert_eq!(on_listen_event(event), action);
    }
}

fn paired(step: PairStep) -> (u64, u64, bool) {
    match step {
        PairStep::Pair { waiting, channel, reused } => (waiting.visitor, channel, reused),
        other => panic!("{other:?}"),
    }
}

#[test]
fn visitors_are_served_in_the_order_in_which_they_came() {
    let mut pool = TcpPool::new(true, 2);
    assert_eq!(pool.pair_step(0), PairStep::Wait);
    assert_eq!(pool.arrive(1, 0), Arrival::Queued { request_channel: true });
    assert_eq!(pool.arrive(2, 1), Arrival::Queued { request_channel: true });
    assert_eq!(pool.pair_step(1), PairStep::Wait);
    pool.channel_opened(100);
    pool.channel_opened(101);
    assert_eq!(paired(pool.pair_step(2)), (1, 100, false));
    assert_eq!(paired(pool.pair_step(2)), (2, 101, false));
    pool.session_started();
    pool.session_started();
}

#[test]
fn finished_channels_go_before_new_ones() {
    let mut pool = TcpPool::new(true, 2);
    pool.channel_opened(100);
    assert_eq!(pool.session_finished(1), Finished::Kept);
    assert_eq!(pool.session_finished(2), Finished::Kept);
    assert_eq!(pool.session_finished(3), Finished::Close);
    // Two finished channels: the first two visitors need no new one.
    assert_eq!(pool.arrive(7, 0), Arrival::Queued { request_channel: false });
    assert_eq!(pool.arrive(8, 0), Arrival::Queued { request_channel: false });
    assert_eq!(pool.arrive(9, 0), Arrival::Queued { request_channel: true });
    assert_eq!(paired(pool.pair_step(0)), (7, 1, true));
    assert_eq!(paired(pool.pair_step(0)), (8, 2, true));
    assert_eq!(paired(pool.pair_step(0)), (9, 100, false));
}

#[test]
fn a_visitor_whose_channel_is_broken_stays_the_first() {
    let mut pool = TcpPool::new(true, 2);
    assert_eq!(pool.session_finished(1), Finished::Kept);
    pool.arrive(7, 0);
    pool.arrive(8, 0);
    let PairStep::Pair { waiting, .. } = pool.pair_step(0) else {
        panic!("a channel is there");
    };
    assert_eq!(pool.channel_broken(waiting), Some(PAIRING_DEADLINE_MS));
    pool.channel_opened(100);
    assert_eq!(paired(pool.pair_step(1)), (7, 100, false));
}

#[test]
fn visitors_that_wait_too_long_are_dropped() {
    let mut pool = TcpPool::new(false, 0);
    pool.arrive(7, 5);
    pool.channel_opened(100);
    assert_eq!(
        pool.pair_step(5 + PAIRING_DEADLINE_MS),
        PairStep::Expired { visitor: 7 }
    );
    assert_eq!(pool.pair_step(0), PairStep::Wait);
    pool.arrive(8, 0);
    assert_eq!(pool.withdraw_last(), Some(8));
    assert_eq!(pool.withdraw_last(), None);
}

#[test]
fn the_queue_of_visitors_is_bounded() {
    let mut pool = TcpPool::new(false, 0);
    for visitor in 0..VISITOR_QUEUE_SIZE as u64 {
        assert_ne!(pool.arrive(visitor, 0), Arrival::Rejected);
    }
    assert_eq!(pool.arrive(9999, 0), Arrival::Rejected);
    pool.channel_opened(1);
    pool.pair_step(0);
    // The visitor still counts while its start command is written.
    assert_eq!(pool.arrive(9999, 0), Arrival::Rejected);
    pool.session_started();
    assert_ne!(pool.arrive(9999, 0), Arrival::Rejected);
}

#[test]
fn idle_channels_do_not_outlive_the_control_channel() {
    let mut pool = TcpPool::new(true, 4);
    pool.session_finished(1);
    pool.session_finished(2);
    assert_eq!(pool.control_gone(), [1, 2]);
    assert_eq!(pool.session_finished(3), Finished::Close);

    // Without reuse, or where none are kept, every channel is closed.
    assert_eq!(TcpPool::new(false, 4).session_finished(1), Finished::Close);
    assert_eq!(TcpPool::new(true, 0).session_finished(1), Finished::Close);
}

#[test]
fn udp_datagrams_pass_through_the_data_channel() {
    let from = SocketAddr::V4 { ip: [9, 8, 7, 6], port: 5 };
    let compression = None;
    assert!(matches!(
        on_udp_event(&compression, UdpPoolEvent::Channel(true)),
        UdpPoolAction::Start(plan) if plan.cmd == DataChannelCmd::StartForwardUdp
    ));
    assert!(matches!(
        on_udp_event(&compression, UdpPoolEvent::Channel(false)),
        UdpPoolAction::NoChannel
    ));
    let event = UdpPoolEvent::Datagram { from, data: vec![1, 2, 3] };
    assert!(matches!(
        on_udp_event(&compression, event),
        UdpPoolAction::ToClient { bytes, counted: 3 }
            if bytes == UdpTraffic::write_slice(from, &[1, 2, 3])
    ));
    let event = UdpPoolEvent::Traffic(UdpTraffic::new(from, &[4, 5]));
    assert!(matches!(
        on_udp_event(&compression, event),
        UdpPoolAction::ToVisitor { traffic, counted: 2 }
            if traffic.from == from && traffic.payload() == [4, 5]
    ));
    assert!(matches!(
        on_udp_event(&compression, UdpPoolEvent::Failed),
        UdpPoolAction::Stop
    ));
    assert!(matches!(
        on_udp_event(&compression, UdpPoolEvent::Shutdown),
        UdpPoolAction::Stop
    ));
}

#[test]
fn a_channel_serves_one_visitor_at_a_time() {
    let mut pool = TcpPool::new(true, 4);
    pool.arrive(1, 0);
    pool.arrive(2, 0);
    pool.channel_opened(7);
    assert_eq!(paired(pool.pair_step(1)), (1, 7, false));
    assert_eq!(pool.pair_step(1), PairStep::Wait);
    pool.session_started();
    assert_eq!(pool.session_finished(7), Finished::Kept);
    assert_eq!(paired(pool.pair_step(2)), (2, 7, true));
    assert_eq!(pool.pair_step(2), PairStep::Wait);
}

#[test]
fn a_visitor_waits_ten_seconds() {
    assert_eq!(visitor_deadline(5), 10005);
    assert_eq!(visitor_deadline(u64::MAX - 1), u64::MAX);
}
