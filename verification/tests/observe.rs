use rathole::config::{CompressionType, LoadedDictionary, ServerServiceConfig, ServiceType};
use rathole::protocol::HASH_WIDTH_IN_BYTES;
use rathole::server::http::{
    parse_request, request_step, respond, route, too_large, write_response, Request, RequestStep,
    Response, Route,
};
use rathole::server::metrics::{escape_label, prometheus_text};
use rathole::server::observe::{
    compression_ratio, is_zero, service_type_str, AutoDictionary, ByteKind, DictionarySnapshot,
    Ratio, ServerStats, ServiceSnapshot, ServiceStats, StatsSnapshot, OBSERVE_REQUEST_LIMIT,
};
use rathole::server::state::{SamplerState, ServiceCompressionState};
use rathole::table::Table;

fn tcp_service(name: &str) -> ServerServiceConfig {
    let mut s = ServerServiceConfig::with_name(name);
    s.bind_addr = "127.0.0.1:8081".to_string();
    s
}

fn zstd_service(name: &str) -> ServerServiceConfig {
    let mut s = tcp_service(name);
    s.compression = Some(CompressionType::Zstd);
    s
}

fn key(s: &str) -> String {
    s.to_string()
}

#[test]
fn snapshot_sorts_services_and_omits_idle_udp_fields() {
    let mut services = Table::new();
    services.insert(key("b"), tcp_service("b"));
    services.insert(key("a"), tcp_service("a"));
    let stats = ServerStats::from_services(&services);
    let snap = stats.snapshot(0);
    assert_eq!(snap.services.iter().map(|s| s.name.as_str()).collect::<Vec<_>>(), ["a", "b"]);
    assert!(snap.services[0].compression.is_none());
    assert!(snap.services[0].compression_ratio.is_none());
    assert!(snap.services[0].dictionary.is_none());
    assert!(is_zero(&snap.services[0].datagrams_in));
    assert!(!is_zero(&1));
}

#[test]
fn idle_keys_are_left_out_of_the_json() {
    let mut stats = ServiceStats::from_config(&tcp_service("a"));
    assert_eq!(stats.snapshot().shown_datagrams(), None);
    assert_eq!(stats.snapshot().shown_reuse(), None);

    stats.add_datagram_in(5);
    assert_eq!(stats.snapshot().shown_datagrams(), Some((1, 0)));
    stats.add_datagram_out(5);
    assert_eq!(stats.snapshot().shown_datagrams(), Some((1, 1)));
    stats.on_session_start(true);
    assert_eq!(stats.snapshot().shown_reuse(), Some(1));

    let mut only_out = ServiceStats::from_config(&tcp_service("b"));
    only_out.add_datagram_out(5);
    assert_eq!(only_out.snapshot().shown_datagrams(), Some((0, 1)));
}

#[test]
fn a_copy_of_the_counters_gives_the_same_snapshot() {
    let mut stats = ServiceStats::from_config(&zstd_service("a"));
    stats.add_read(10, ByteKind::Visitor);
    stats.add_write(20, ByteKind::Wire);
    stats.on_session_start(true);
    let (a, b) = (stats.snapshot(), stats.copied().snapshot());
    assert_eq!((a.name, a.bind_addr, a.bytes_in), (b.name, b.bind_addr, b.bytes_in));
    assert_eq!((a.wire_bytes_out, a.connections_active), (b.wire_bytes_out, b.connections_active));
    assert_eq!((a.compression, a.compression_ratio), (b.compression, b.compression_ratio));
}

#[test]
fn compression_ratio_is_plain_over_wire() {
    assert_eq!(compression_ratio(0, 0), None);
    assert_eq!(compression_ratio(10, 0), None);
    let ratio = compression_ratio(10, 5).unwrap();
    assert_eq!(ratio.plain as f64 / ratio.wire as f64, 2.0);
}

#[test]
fn zstd_service_reports_ratio_and_none_dictionary() {
    let mut services = Table::new();
    services.insert(key("echo"), zstd_service("echo"));
    let mut stats = ServerStats::from_services(&services);
    let i = stats.services.find(&key("echo")).unwrap();
    let service = stats.services.value_at_mut(i);
    service.bytes_in = 100;
    service.bytes_out = 50;
    service.wire_bytes_in = 20;
    service.wire_bytes_out = 10;
    let snap = service.snapshot();
    assert_eq!(snap.compression, Some("zstd"));
    let ratio = snap.compression_ratio.unwrap();
    assert_eq!(ratio.plain as f64 / ratio.wire as f64, 5.0);
    assert_eq!(
        snap.dictionary,
        Some(DictionarySnapshot { mode: "none", state: None, digest: None })
    );
}

#[test]
fn static_dictionary_digest_is_hex() {
    let digest = [0xab; HASH_WIDTH_IN_BYTES];
    let mut cfg = zstd_service("dict");
    cfg.compression_dictionary_loaded = Some(LoadedDictionary { digest, ..Default::default() });
    let stats = ServiceStats::from_config(&cfg);
    assert_eq!(
        stats.dictionary_snapshot(),
        Some(DictionarySnapshot { mode: "static", state: None, digest: Some("ab".repeat(32)) })
    );
}

#[test]
fn auto_dictionary_reports_sampling_state() {
    let cfg = zstd_service("auto");
    let mut stats = ServiceStats::from_config(&cfg);
    let mut state = ServiceCompressionState::new(1024);
    stats.attach_auto_dict(Some(AutoDictionary::of(&state)));
    assert_eq!(
        stats.dictionary_snapshot(),
        Some(DictionarySnapshot { mode: "auto", state: Some("sampling"), digest: None })
    );

    state.sampling_active = false;
    state.finish_training(Ok(b"dictionary".to_vec()));
    stats.attach_auto_dict(Some(AutoDictionary::of(&state)));
    let snap = stats.dictionary_snapshot().unwrap();
    assert_eq!(snap.state, Some("trained"));
    assert_eq!(snap.digest, Some(hex::encode(rathole::protocol::digest(b"dictionary"))));

    state.generation = None;
    state.sampler = SamplerState::Failed;
    stats.attach_auto_dict(Some(AutoDictionary::of(&state)));
    assert_eq!(stats.dictionary_snapshot().unwrap().state, Some("failed"));
}

fn snapshot(name: &str) -> ServiceSnapshot {
    ServiceSnapshot {
        name: key(name),
        service_type: "tcp",
        bind_addr: key("127.0.0.1:1"),
        control_connected: true,
        connections_active: 0,
        connections_total: 1,
        data_channels_reused: 0,
        bytes_in: 2,
        bytes_out: 3,
        wire_bytes_in: 4,
        wire_bytes_out: 5,
        datagrams_in: 0,
        datagrams_out: 0,
        compression: Some("zstd"),
        compression_ratio: Some(Ratio { plain: 2, wire: 1 }),
        dictionary: None,
    }
}

#[test]
fn prometheus_escapes_label_values() {
    let text = prometheus_text(
        &StatsSnapshot { uptime_secs: 9, services: vec![snapshot(r#"a"b\c"#)] },
        &vec![key("2")],
    );
    assert!(text.contains("rathole_uptime_seconds 9"));
    assert!(text.contains(r#"rathole_control_connected{service="a\"b\\c",type="tcp"} 1"#));
    assert!(text.contains(r#"rathole_compression_ratio{service="a\"b\\c",type="tcp"} 2"#));
    assert!(text.contains(r#"rathole_bytes_out_total{service="a\"b\\c",type="tcp"} 3"#));
    assert!(text.contains("# TYPE rathole_compression_ratio gauge\n"));
}

#[test]
fn the_ratio_is_left_out_where_there_is_none() {
    let mut service = snapshot("x");
    service.compression_ratio = None;
    let text =
        prometheus_text(&StatsSnapshot { uptime_secs: 0, services: vec![service] }, &vec![key("")]);
    assert!(!text.contains("rathole_compression_ratio{"));
}

#[test]
fn label_values_are_escaped() {
    assert_eq!(escape_label("plain"), "plain");
    assert_eq!(escape_label("a\\b\"c\nd"), "a\\\\b\\\"c\\nd");
    assert_eq!(escape_label("\\n"), "\\\\n");
}

#[test]
fn upsert_replaces_and_remove_drops_service() {
    let mut stats: ServerStats<ServiceStats> = ServerStats::from_services(&Table::new());
    stats.upsert(key("echo"), ServiceStats::from_config(&tcp_service("echo")));
    assert!(stats.service(&key("echo")).is_some());
    stats.remove(&key("echo"));
    assert!(stats.service(&key("echo")).is_none());
}

#[test]
fn counting_stream_counts_visitor_bytes() {
    let mut stats = ServiceStats::from_config(&tcp_service("echo"));
    stats.add_read(5, ByteKind::Visitor);
    stats.add_write(5, ByteKind::Visitor);
    assert_eq!(stats.bytes_in, 5);
    assert_eq!(stats.bytes_out, 5);
    assert_eq!(stats.wire_bytes_in, 0);
    assert_eq!(stats.wire_bytes_out, 0);
    stats.add_read(7, ByteKind::Wire);
    stats.add_write(8, ByteKind::Wire);
    assert_eq!(stats.wire_bytes_in, 7);
    assert_eq!(stats.wire_bytes_out, 8);
    stats.add_datagram_in(10);
    stats.add_datagram_out(20);
    assert_eq!((stats.datagrams_in, stats.bytes_in), (1, 15));
    assert_eq!((stats.datagrams_out, stats.bytes_out), (1, 25));
}

#[test]
fn session_guard_tracks_active_connections() {
    let mut stats = ServiceStats::from_config(&tcp_service("echo"));
    stats.on_session_start(false);
    assert_eq!(stats.connections_active, 1);
    assert_eq!(stats.connections_total, 1);
    assert_eq!(stats.data_channels_reused, 0);
    stats.on_session_end();
    assert_eq!(stats.connections_active, 0);
    assert_eq!(stats.connections_total, 1);
    stats.on_session_start(true);
    assert_eq!(stats.data_channels_reused, 1);
    assert_eq!(stats.connections_total, 2);
}

/// The answer to a request, as a server that observes one service gives it.
fn http(stats: &ServerStats<ServiceStats>, request: &[u8]) -> (u16, String) {
    assert_eq!(request_step(request), RequestStep::Complete);
    let snap = stats.snapshot(1);
    let ratios = vec![String::new(); snap.services.len()];
    let json = format!("{{\"name\":\"{}\"}}", snap.services[0].name).into_bytes();
    let response = respond(
        route(&parse_request(request)),
        Some(json),
        &prometheus_text(&snap, &ratios),
    );
    let bytes = write_response(&response);
    let text = String::from_utf8(bytes).unwrap();
    let status = text.split_whitespace().nth(1).unwrap().parse::<u16>().unwrap();
    let body = text.split("\r\n\r\n").nth(1).unwrap_or("").to_string();
    (status, body)
}

fn get(stats: &ServerStats<ServiceStats>, path: &str) -> (u16, String) {
    let request = format!("GET {path} HTTP/1.1\r\nHost: localhost\r\nConnection: close\r\n\r\n");
    http(stats, request.as_bytes())
}

#[test]
fn observe_http_routes() {
    let mut services = Table::new();
    services.insert(key("echo"), tcp_service("echo"));
    let mut stats = ServerStats::from_services(&services);
    let i = stats.services.find(&key("echo")).unwrap();
    stats.services.value_at_mut(i).set_control_connected(true);
    assert!(stats.snapshot(0).services[0].control_connected);

    let (status, body) = get(&stats, "/health");
    assert_eq!(status, 200);
    assert_eq!(body, "ok\n");

    let (status, body) = get(&stats, "/stats");
    assert_eq!(status, 200);
    assert!(body.contains("\"name\":\"echo\""));

    let (status, body) = get(&stats, "/");
    assert_eq!(status, 200);
    assert!(body.contains("\"name\":\"echo\""));

    let (status, body) = get(&stats, "/metrics");
    assert_eq!(status, 200);
    assert!(body.contains("rathole_control_connected"));
    assert!(body.contains(r#"service="echo""#));

    let (status, _) = get(&stats, "/nope");
    assert_eq!(status, 404);

    let (status, _) =
        http(&stats, b"POST /stats HTTP/1.1\r\nHost: localhost\r\nContent-Length: 0\r\n\r\n");
    assert_eq!(status, 405);
}

#[test]
fn requests_are_read_up_to_the_empty_line() {
    assert_eq!(request_step(b""), RequestStep::ReadMore(OBSERVE_REQUEST_LIMIT));
    assert_eq!(request_step(b"GET"), RequestStep::ReadMore(OBSERVE_REQUEST_LIMIT - 3));
    assert_eq!(request_step(b"GET / HTTP/1.1\r\n\r\n"), RequestStep::Complete);
    assert_eq!(request_step(&vec![b'x'; OBSERVE_REQUEST_LIMIT]), RequestStep::TooLarge);
}

fn request(method: &str, path: &str) -> Request {
    Request { method: key(method), path: key(path) }
}

#[test]
fn request_lines_are_parsed() {
    assert_eq!(parse_request(b"GET /stats?x=1 HTTP/1.1\r\n\r\n"), request("GET", "/stats"));
    assert_eq!(parse_request(b"  HEAD\t/a  HTTP/1.1\nHost: x"), request("HEAD", "/a"));
    assert_eq!(parse_request(b"GET\r\n\r\n"), request("GET", "/"));
    assert_eq!(parse_request(b""), request("", "/"));
    assert_eq!(parse_request(&[0xff, b' ', b'/']), request("", "/"));
    assert_eq!(route(&request("HEAD", "/")), Route::MethodNotAllowed);
    assert_eq!(route(&request("GET", "/x")), Route::NotFound);
}

#[test]
fn responses_are_written_in_full() {
    let response = Response { status: 200, content_type: "a/b", body: b"hello".to_vec() };
    assert_eq!(
        write_response(&response),
        b"HTTP/1.1 200 OK\r\nContent-Type: a/b\r\nContent-Length: 5\r\nConnection: close\r\n\r\nhello"
    );
    let text = String::from_utf8(write_response(&too_large())).unwrap();
    assert!(text.starts_with("HTTP/1.1 431 Request Header Fields Too Large\r\n"));
    assert!(text.ends_with("request too large\n"));
    let failed = respond(Route::Stats, None, "");
    assert_eq!(failed.status, 500);
    assert_eq!(failed.body, b"internal error\n");
    let other = Response { status: 999, content_type: "a/b", body: Vec::new() };
    assert!(write_response(&other).starts_with(b"HTTP/1.1 999 Error\r\n"));
}

#[test]
fn service_types_have_names() {
    assert_eq!(service_type_str(ServiceType::Tcp), "tcp");
    assert_eq!(service_type_str(ServiceType::Udp), "udp");
}
