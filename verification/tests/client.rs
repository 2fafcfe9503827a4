use rathole::client::{
    after_failure, answer_challenge, control_hello, data_hello, dict_timeout_message,
    handle_compression_dict_update, heartbeat_watched, next_session, on_ack, on_client_event,
    resolve_client_dict, run_data_channel, run_udp_forwarder, service_digest, Client,
    ClientAction, ClientError, ClientEvent, DataPlan, DictCache, ForwarderAction, ForwarderEvent,
    Resolve, Retry, UdpPorts, DICT_CACHE_CAPACITY, DICT_WAIT_SECS, STABLE_AFTER_MS,
};
use rathole::config::{ClientServiceConfig, LoadedDictionary, ServiceType};
use rathole::protocol::{
    digest, Ack, ControlChannelCmd, DataChannelCmd, Digest, Hello, SocketAddr,
    CURRENT_PROTO_VERSION, HASH_WIDTH_IN_BYTES,
};
use rathole::server::control::session_key;

const ZERO_DIGEST: Digest = [0; HASH_WIDTH_IN_BYTES];
const SERVER_DIGEST: Digest = [1; HASH_WIDTH_IN_BYTES];
const CLIENT_DIGEST: Digest = [2; HASH_WIDTH_IN_BYTES];

fn service_with_dictionary(digest: Digest) -> ClientServiceConfig {
    let mut service = ClientServiceConfig::with_name("test-service");
    service.compression_dictionary_loaded =
        Some(LoadedDictionary { digest, ..Default::default() });
    service
}

fn dictionary(index: u8) -> Vec<u8> {
    vec![index; usize::from(index) + 1]
}

#[test]
fn resolves_plain_zstd_when_server_and_client_have_no_dictionary() {
    let service = ClientServiceConfig::with_name("test-service");
    let cache = DictCache::new();

    let resolved = resolve_client_dict(&ZERO_DIGEST, &service, &cache);

    assert!(matches!(resolved, Resolve::Plain { unused: false }));
}

#[test]
fn ignores_client_dictionary_when_server_requests_plain_zstd() {
    let service = service_with_dictionary(CLIENT_DIGEST);
    let cache = DictCache::new();

    let resolved = resolve_client_dict(&ZERO_DIGEST, &service, &cache);

    assert!(matches!(resolved, Resolve::Plain { unused: true }));
}

#[test]
fn resolves_client_dictionary_when_digest_matches_server() {
    let service = service_with_dictionary(SERVER_DIGEST);
    let cache = DictCache::new();

    let resolved = resolve_client_dict(&SERVER_DIGEST, &service, &cache);

    assert!(matches!(resolved, Resolve::Use(bytes) if bytes.is_empty()));
}

#[test]
fn times_out_when_server_dictionary_never_arrives() {
    let service = ClientServiceConfig::with_name("test-service");
    let cache = DictCache::new();

    assert!(matches!(resolve_client_dict(&SERVER_DIGEST, &service, &cache), Resolve::Wait));
    assert_eq!(DICT_WAIT_SECS, 5);
    let message = dict_timeout_message(&SERVER_DIGEST, &service);

    assert!(message.contains("test-service"));
    assert!(message.contains(&hex::encode(SERVER_DIGEST)));
    assert!(message.contains(&hex::encode(ZERO_DIGEST)));
    assert!(message.contains("timed out"));
}

#[test]
fn timeout_reports_mismatched_static_dictionary_digest() {
    let service = service_with_dictionary(CLIENT_DIGEST);
    let cache = DictCache::new();

    assert!(matches!(resolve_client_dict(&SERVER_DIGEST, &service, &cache), Resolve::Wait));
    let message = dict_timeout_message(&SERVER_DIGEST, &service);

    assert!(message.contains("test-service"));
    assert!(message.contains(&hex::encode(SERVER_DIGEST)));
    assert!(message.contains(&hex::encode(CLIENT_DIGEST)));
    assert!(message.contains("timed out"));
    assert_eq!(
        message,
        format!(
            "Service test-service: timed out waiting for pushed compression dictionary — server \
             expects digest {}, client has {}",
            "01".repeat(32),
            "02".repeat(32)
        )
    );
}

#[test]
fn resolves_cached_dictionary_without_waiting() {
    let service = ClientServiceConfig::with_name("test-service");
    let mut cache = DictCache::new();
    let pushed = vec![1, 2, 3];
    let pushed_digest = digest(&pushed);
    cache.insert(pushed_digest, pushed.clone());

    let resolved = resolve_client_dict(&pushed_digest, &service, &cache);

    assert!(matches!(resolved, Resolve::Use(bytes) if bytes == pushed));
}

#[test]
fn resolves_dictionary_promptly_when_push_arrives_while_waiting() {
    let service = ClientServiceConfig::with_name("test-service");
    let mut cache = DictCache::new();
    let pushed = vec![4, 5, 6];
    let pushed_digest = digest(&pushed);
    assert!(matches!(resolve_client_dict(&pushed_digest, &service, &cache), Resolve::Wait));

    cache.insert(pushed_digest, pushed.clone());

    let resolved = resolve_client_dict(&pushed_digest, &service, &cache);
    assert!(matches!(resolved, Resolve::Use(bytes) if bytes == pushed));
}

#[test]
fn returns_dictionary_after_push() {
    let mut cache = DictCache::new();
    let pushed = dictionary(1);
    let pushed_digest = digest(&pushed);

    cache.insert(pushed_digest, pushed.clone());

    assert_eq!(cache.lookup(&pushed_digest), Some(&pushed));
}

#[test]
fn rejects_pushed_dictionary_when_digest_mismatches() {
    let mut cache = DictCache::new();
    let claimed_digest = [9; HASH_WIDTH_IN_BYTES];

    let kept = handle_compression_dict_update(&mut cache, claimed_digest, dictionary(2));

    assert!(!kept);
    assert_eq!(cache.lookup(&claimed_digest), None);
}

#[test]
fn evicts_oldest_dictionary_after_fifth_generation() {
    let mut cache = DictCache::new();
    let generations: Vec<(Digest, Vec<u8>)> =
        (1..=5).map(|index| (digest(&dictionary(index)), dictionary(index))).collect();

    for (digest, dictionary) in &generations {
        assert!(handle_compression_dict_update(&mut cache, *digest, dictionary.clone()));
    }

    assert_eq!(DICT_CACHE_CAPACITY, 4);
    assert_eq!(cache.lookup(&generations[0].0), None);
    for (digest, dictionary) in &generations[1..] {
        assert_eq!(cache.lookup(digest), Some(dictionary));
    }
}

#[test]
fn a_dictionary_that_is_known_evicts_nothing() {
    let mut cache = DictCache::new();
    for index in 1..=4 {
        cache.insert(digest(&dictionary(index)), dictionary(index));
    }
    cache.insert(digest(&dictionary(2)), b"other bytes".to_vec());
    for index in 1..=4 {
        assert_eq!(cache.lookup(&digest(&dictionary(index))), Some(&dictionary(index)));
    }
}

#[test]
fn client_and_server_derive_the_same_session_key() {
    let nonce = [7; HASH_WIDTH_IN_BYTES];
    let hello = Hello::ControlChannelHello(CURRENT_PROTO_VERSION, nonce);
    let auth = answer_challenge(&hello, "token").ok().unwrap();
    assert_eq!(auth.0, session_key("token", &nonce));
    assert_ne!(auth.0, session_key("other", &nonce));

    let wrong = Hello::DataChannelHello(CURRENT_PROTO_VERSION, nonce);
    let error = answer_challenge(&wrong, "token").err().unwrap();
    assert_eq!(error.message(), "Unexpected type of hello");

    assert_eq!(service_digest("foo"), digest(b"foo"));
    assert!(matches!(
        control_hello(service_digest("foo")),
        Hello::ControlChannelHello(v, d) if v == CURRENT_PROTO_VERSION && d == digest(b"foo")
    ));
    assert!(matches!(
        data_hello(auth.0),
        Hello::DataChannelHello(v, d) if v == CURRENT_PROTO_VERSION && d == auth.0
    ));
}

#[test]
fn a_refusal_of_the_server_is_reported() {
    let name = "foo".to_string();
    assert_eq!(on_ack(Ack::Accepted, &name), Ok(()));
    let error = on_ack(Ack::AuthFailed, &name).unwrap_err();
    assert_eq!(error.message(), "Authentication failed: foo: Incorrect token");
    let error = on_ack(Ack::ServiceNotExist, &name).unwrap_err();
    assert_eq!(error.message(), "Authentication failed: foo: Service not exist");
}

#[test]
fn commands_of_the_server_are_acted_on() {
    let event = ClientEvent::Command(ControlChannelCmd::CreateDataChannel);
    assert!(matches!(on_client_event(40, event), ClientAction::OpenDataChannel));
    let event = ClientEvent::Command(ControlChannelCmd::HeartBeat);
    assert!(matches!(on_client_event(40, event), ClientAction::Wait));
    let event = ClientEvent::Command(ControlChannelCmd::UpdateCompressionDict {
        digest: SERVER_DIGEST,
        dictionary: vec![1],
    });
    assert!(matches!(
        on_client_event(40, event),
        ClientAction::UpdateDictionary { digest, dictionary }
            if digest == SERVER_DIGEST && dictionary == [1]
    ));
    assert!(matches!(on_client_event(40, ClientEvent::Shutdown), ClientAction::Stop));
    assert!(matches!(
        on_client_event(40, ClientEvent::Silence),
        ClientAction::Fail(e) if e.message() == "Heartbeat timed out"
    ));
    assert!(matches!(on_client_event(0, ClientEvent::Silence), ClientAction::Wait));
    assert!(heartbeat_watched(40));
    assert!(!heartbeat_watched(0));
}

#[test]
fn data_channels_are_forwarded_as_the_server_says() {
    let d = SERVER_DIGEST;
    for (cmd, zstd, reuse) in [
        (DataChannelCmd::StartForwardTcp, None, false),
        (DataChannelCmd::StartForwardTcpZstd { dict_digest: d }, Some(d), false),
        (DataChannelCmd::StartForwardTcpReuse, None, true),
        (DataChannelCmd::StartForwardTcpZstdReuse { dict_digest: d }, Some(d), true),
    ] {
        assert!(matches!(
            run_data_channel(&cmd, ServiceType::Tcp),
            Ok(DataPlan::Tcp { zstd: z, reuse: r }) if z == zstd && r == reuse
        ));
        let error = run_data_channel(&cmd, ServiceType::Udp).err().unwrap();
        assert_eq!(error, ClientError::ExpectTcp);
        assert_eq!(
            error.message(),
            "Expect TCP traffic. Please check the configuration."
        );
    }
    for (cmd, zstd) in [
        (DataChannelCmd::StartForwardUdp, None),
        (DataChannelCmd::StartForwardUdpZstd { dict_digest: d }, Some(d)),
    ] {
        assert!(matches!(
            run_data_channel(&cmd, ServiceType::Udp),
            Ok(DataPlan::Udp { zstd: z }) if z == zstd
        ));
        let error = run_data_channel(&cmd, ServiceType::Tcp).err().unwrap();
        assert_eq!(
            error.message(),
            "Expect UDP traffic. Please check the configuration."
        );
    }
}

#[test]
fn only_commands_for_reuse_open_another_session() {
    let d = SERVER_DIGEST;
    for (cmd, zstd) in [
        (DataChannelCmd::StartForwardTcpReuse, None),
        (DataChannelCmd::StartForwardTcpZstdReuse { dict_digest: d }, Some(d)),
    ] {
        assert_eq!(next_session(&cmd, ServiceType::Tcp), Ok(zstd));
        assert_eq!(next_session(&cmd, ServiceType::Udp), Err(ClientError::ExpectTcp));
    }
    for cmd in [
        DataChannelCmd::StartForwardTcp,
        DataChannelCmd::StartForwardTcpZstd { dict_digest: d },
    ] {
        assert_eq!(next_session(&cmd, ServiceType::Tcp), Err(ClientError::NotReusable));
        assert_eq!(next_session(&cmd, ServiceType::Udp), Err(ClientError::ExpectTcp));
    }
    for cmd in [
        DataChannelCmd::StartForwardUdp,
        DataChannelCmd::StartForwardUdpZstd { dict_digest: d },
    ] {
        assert_eq!(next_session(&cmd, ServiceType::Tcp), Err(ClientError::ExpectUdp));
        assert_eq!(next_session(&cmd, ServiceType::Udp), Err(ClientError::NotReusable));
    }
    assert_eq!(
        ClientError::NotReusable.message(),
        "A reused data channel got a command for a channel of its own"
    );
}

#[test]
fn a_channel_that_was_stable_is_reconnected_without_delay() {
    assert_eq!(after_failure(true, 10_000), Retry::Stop);
    assert_eq!(after_failure(false, STABLE_AFTER_MS), Retry::Again { reset: false });
    assert_eq!(after_failure(false, STABLE_AFTER_MS + 1), Retry::Again { reset: true });
}

#[test]
fn services_keep_their_control_channels() {
    let mut client: Client<u32> = Client::new();
    assert_eq!(client.add_service("a".to_string(), vec![1, 2]), None);
    assert_eq!(client.add_service("b".to_string(), vec![3]), None);
    assert_eq!(client.add_service("a".to_string(), vec![4]), Some(vec![1, 2]));
    assert_eq!(client.delete_service(&"a".to_string()), Some(vec![4]));
    assert_eq!(client.delete_service(&"a".to_string()), None);
    assert_eq!(client.delete_service(&"b".to_string()), Some(vec![3]));
}

#[test]
fn visitors_keep_their_sockets() {
    let a = SocketAddr::V4 { ip: [1, 2, 3, 4], port: 1 };
    let b = SocketAddr::V4 { ip: [1, 2, 3, 4], port: 2 };
    let mut ports: UdpPorts<u32> = UdpPorts::new();
    assert_eq!(ports.route(&a), None);
    ports.opened(a, 10);
    ports.opened(b, 20);
    assert_eq!(ports.route(&a), Some(&10));
    ports.closed(&a);
    assert_eq!(ports.route(&a), None);
    assert_eq!(ports.route(&b), Some(&20));
}

#[test]
fn datagrams_go_both_ways() {
    let from = SocketAddr::V4 { ip: [1, 2, 3, 4], port: 1 };
    assert!(matches!(
        run_udp_forwarder(from, ForwarderEvent::FromServer(Some(vec![1]))),
        ForwarderAction::ToService(data) if data == [1]
    ));
    assert!(matches!(
        run_udp_forwarder(from, ForwarderEvent::FromService(Some(vec![2]))),
        ForwarderAction::ToServer(t) if t.from == from && t.payload() == [2]
    ));
    for event in [
        ForwarderEvent::FromServer(None),
        ForwarderEvent::FromService(None),
        ForwarderEvent::Idle,
    ] {
        assert!(matches!(run_udp_forwarder(from, event), ForwarderAction::Close));
    }
    assert!(matches!(
        run_udp_forwarder(from, ForwarderEvent::SendFailed),
        ForwarderAction::Abort
    ));
}

#[test]
fn a_dictionary_in_use_has_the_announced_digest() {
    let mut cache = DictCache::new();
    let service = ClientServiceConfig::with_name("test-service");
    let bytes = dictionary(3);
    let wrong = digest(b"another dictionary");
    assert!(!handle_compression_dict_update(&mut cache, wrong, bytes.clone()));
    assert!(matches!(resolve_client_dict(&wrong, &service, &cache), Resolve::Wait));

    let right = digest(&bytes);
    assert!(handle_compression_dict_update(&mut cache, right, bytes.clone()));
    match resolve_client_dict(&right, &service, &cache) {
        Resolve::Use(used) => assert_eq!(digest(&used), right),
        _ => panic!("the pushed dictionary is not used"),
    }
}
