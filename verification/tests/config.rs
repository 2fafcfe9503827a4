use rathole::config::{
    static_dictionary_warning, ClientConfig, ClientServiceConfig, CompressionType, Config,
    ConfigError, DictionaryFiles, DictionaryPath, LoadedDictionary, MaskedBytes, MaskedString,
    NoiseConfig, ProxyUrl, RemoteAddrList, ServerConfig, ServerServiceConfig, ServiceFault,
    ServiceType, TcpConfig, TlsConfig, TransportConfig, TransportType, WebsocketConfig,
    DEFAULT_TCP_POOL_SIZE, DEFAULT_UDP_POOL_SIZE,
};
use rathole::config::{
    default_client_retry_interval, default_heartbeat_interval, default_heartbeat_timeout,
    default_keepalive_interval, default_keepalive_secs, default_nodelay, default_noise_pattern,
    default_service_type, default_tcp_pool_size, default_udp_pool_size, default_websocket_path,
};
use rathole::protocol::digest;
use rathole::table::Table;

fn text(t: &toml::Table, key: &str) -> Option<String> {
    t.get(key).map(|v| v.as_str().unwrap().to_string())
}

fn flag(t: &toml::Table, key: &str) -> Option<bool> {
    t.get(key).map(|v| v.as_bool().unwrap())
}

fn number(t: &toml::Table, key: &str) -> Option<u64> {
    t.get(key).map(|v| v.as_integer().unwrap() as u64)
}

fn secret(t: &toml::Table, key: &str) -> Option<MaskedString> {
    text(t, key).map(|s| MaskedString::new(&s))
}

fn server_service(t: &toml::Table) -> ServerServiceConfig {
    let mut s = ServerServiceConfig::with_name("");
    if text(t, "type").as_deref() == Some("udp") {
        s.service_type = ServiceType::Udp;
    }
    s.bind_addr = text(t, "bind_addr").unwrap();
    s.token = secret(t, "token");
    s.nodelay = flag(t, "nodelay");
    s.compression = text(t, "compression").map(|_| CompressionType::Zstd);
    s.compression_level = number(t, "compression_level").map(|n| n as i32);
    s.compression_dictionary = text(t, "compression_dictionary");
    s.compression_auto_dictionary = flag(t, "compression_auto_dictionary");
    s.compression_sample_window = number(t, "compression_sample_window");
    s.compression_dictionary_max_size = number(t, "compression_dictionary_max_size");
    s.connection_reuse = flag(t, "connection_reuse").unwrap_or(false);
    s.connection_reuse_max_idle = number(t, "connection_reuse_max_idle").map(|n| n as usize);
    s
}

fn client_service(t: &toml::Table) -> ClientServiceConfig {
    let mut s = ClientServiceConfig::with_name("");
    s.local_addr = text(t, "local_addr").unwrap();
    s.token = secret(t, "token");
    s.retry_interval = number(t, "retry_interval");
    s.compression_dictionary = text(t, "compression_dictionary");
    s
}

fn services(t: &toml::Table) -> &toml::Table {
    t.get("services").unwrap().as_table().unwrap()
}

/// The configuration that a TOML document holds, not yet checked.
fn parse(document: &str) -> Config {
    let root: toml::Table = document.parse().unwrap();
    let server = root.get("server").map(|v| {
        let t = v.as_table().unwrap();
        let mut table = Table::new();
        for (name, s) in services(t) {
            table.insert(name.clone(), server_service(s.as_table().unwrap()));
        }
        ServerConfig {
            bind_addr: text(t, "bind_addr").unwrap(),
            default_token: secret(t, "default_token"),
            services: table,
            transport: TransportConfig::default(),
            heartbeat_interval: default_heartbeat_interval(),
            tcp_pool_size: number(t, "tcp_pool_size")
                .map_or(default_tcp_pool_size(), |n| n as usize),
            udp_pool_size: number(t, "udp_pool_size")
                .map_or(default_udp_pool_size(), |n| n as usize),
            observe_addr: text(t, "observe_addr"),
        }
    });
    let client = root.get("client").map(|v| {
        let t = v.as_table().unwrap();
        let mut table = Table::new();
        for (name, s) in services(t) {
            table.insert(name.clone(), client_service(s.as_table().unwrap()));
        }
        let remote_addr = match t.get("remote_addr").unwrap() {
            toml::Value::Array(list) => {
                list.iter().map(|a| a.as_str().unwrap().to_string()).collect()
            }
            one => vec![one.as_str().unwrap().to_string()],
        };
        ClientConfig {
            remote_addr: RemoteAddrList::new(remote_addr),
            default_token: secret(t, "default_token"),
            prefer_ipv6: None,
            services: table,
            transport: TransportConfig::default(),
            heartbeat_timeout: default_heartbeat_timeout(),
            retry_interval: number(t, "retry_interval").unwrap_or(default_client_retry_interval()),
        }
    });
    Config { server, client }
}

fn from_str_with_files(document: &str, files: &DictionaryFiles) -> Result<Config, ConfigError> {
    let mut config = parse(document);
    config.validate(files)?;
    Ok(config)
}

fn from_str(document: &str) -> Result<Config, ConfigError> {
    from_str_with_files(document, &Table::new())
}

fn key(s: &str) -> String {
    s.to_string()
}

fn set_token(services: &mut Table<String, ServerServiceConfig>, name: &str, token: &str) {
    let i = services.find(&key(name)).unwrap();
    services.value_at_mut(i).token = Some(MaskedString::new(token));
}

#[test]
fn accepts_a_server_and_a_client_in_one_file() {
    assert!(from_str(
        r#"
[server]
bind_addr = "0.0.0.0:2333"
[server.services.foo]
bind_addr = "0.0.0.0:8081"
token = "t"
[client]
remote_addr = "example.com:2333"
default_token = "t"
[client.services.foo]
local_addr = "127.0.0.1:80"
"#
    )
    .is_ok());
}

#[test]
fn accepts_the_highest_compression_level() {
    assert!(from_str(
        r#"
[server]
bind_addr = "0.0.0.0:2333"
default_token = "t"
[server.services.foo]
bind_addr = "0.0.0.0:8081"
compression = "zstd"
compression_level = 22
"#
    )
    .is_ok());
}

#[test]
fn refuses_a_configuration_without_a_role() {
    let mut empty = Config { server: None, client: None };
    let error = empty.validate(&Table::new()).unwrap_err();
    assert_eq!(error, ConfigError::NoRole);
    assert_eq!(error.message(), "Neither of `[server]` or `[client]` is defined");
}

#[test]
fn test_validate_server_config() {
    let mut cfg = ServerConfig::default();
    let mut foo1 = ServerServiceConfig::with_name("foo1");
    foo1.bind_addr = key("127.0.0.1:80");
    cfg.services.insert(key("foo1"), foo1);
    let files = Table::new();

    // Missing the token
    assert!(Config::validate_server_config(&mut cfg, &files).is_err());

    // Use the default token
    cfg.default_token = Some(MaskedString::new("123"));
    assert!(Config::validate_server_config(&mut cfg, &files).is_ok());
    assert_eq!(
        cfg.services.get(&key("foo1")).as_ref().unwrap().token.as_ref().unwrap().as_str(),
        "123"
    );

    // The default token won't override the service token
    set_token(&mut cfg.services, "foo1", "4");
    assert!(Config::validate_server_config(&mut cfg, &files).is_ok());
    assert_eq!(
        cfg.services.get(&key("foo1")).as_ref().unwrap().token.as_ref().unwrap().as_str(),
        "4"
    );
}

#[test]
fn test_validate_client_config() {
    let mut cfg = ClientConfig {
        remote_addr: RemoteAddrList::new(vec![key("127.0.0.1:2333")]),
        ..Default::default()
    };
    let mut foo1 = ClientServiceConfig::with_name("foo1");
    foo1.local_addr = key("127.0.0.1:80");
    cfg.services.insert(key("foo1"), foo1);
    let files = Table::new();

    // Missing the token
    assert!(Config::validate_client_config(&mut cfg, &files).is_err());

    // Use the default token
    cfg.default_token = Some(MaskedString::new("123"));
    assert!(Config::validate_client_config(&mut cfg, &files).is_ok());
    assert_eq!(
        cfg.services.get(&key("foo1")).as_ref().unwrap().token.as_ref().unwrap().as_str(),
        "123"
    );

    // The default token won't override the service token
    let i = cfg.services.find(&key("foo1")).unwrap();
    cfg.services.value_at_mut(i).token = Some(MaskedString::new("4"));
    assert!(Config::validate_client_config(&mut cfg, &files).is_ok());
    assert_eq!(
        cfg.services.get(&key("foo1")).as_ref().unwrap().token.as_ref().unwrap().as_str(),
        "4"
    );
}

#[test]
fn test_remote_addr_one_or_many() {
    let single = from_str(
        r#"
[client]
remote_addr = "example.com:2333"
default_token = "t"
[client.services.foo]
local_addr = "127.0.0.1:80"
"#,
    )
    .unwrap();
    assert_eq!(single.client.unwrap().remote_addr.as_slice(), &["example.com:2333".to_string()]);

    let many = from_str(
        r#"
[client]
remote_addr = ["a:1", "b:2", "a:1"]
default_token = "t"
[client.services.foo]
local_addr = "127.0.0.1:80"
"#,
    )
    .unwrap();
    assert_eq!(
        many.client.unwrap().remote_addr.as_slice(),
        &["a:1".to_string(), "b:2".to_string()]
    );

    assert!(from_str(
        r#"
[client]
remote_addr = []
default_token = "t"
[client.services.foo]
local_addr = "127.0.0.1:80"
"#,
    )
    .is_err());
}

#[test]
fn normalizing_addresses_refuses_empty_ones() {
    let mut none = RemoteAddrList::new(Vec::new());
    let error = none.normalize().unwrap_err();
    assert_eq!(error, ConfigError::NoAddress);
    assert_eq!(error.message(), "`client.remote_addr` must not be empty");

    let mut blank = RemoteAddrList::new(vec![key("a:1"), key("")]);
    let error = blank.normalize().unwrap_err();
    assert_eq!(error, ConfigError::EmptyAddress);
    assert_eq!(error.message(), "`client.remote_addr` contains an empty address");

    let mut twice = RemoteAddrList::new(vec![key("b:2"), key("a:1"), key("b:2")]);
    twice.normalize().unwrap();
    assert_eq!(twice.as_slice(), &[key("b:2"), key("a:1")]);
    twice.normalize().unwrap();
    assert_eq!(twice.as_slice(), &[key("b:2"), key("a:1")]);
}

#[test]
fn test_server_pool_size() {
    let defaulted = from_str(
        r#"
[server]
bind_addr = "0.0.0.0:2333"
default_token = "t"
[server.services.foo]
bind_addr = "0.0.0.0:8081"
"#,
    )
    .unwrap();
    let s = defaulted.server.unwrap();
    assert_eq!(s.tcp_pool_size, DEFAULT_TCP_POOL_SIZE);
    assert_eq!(s.udp_pool_size, DEFAULT_UDP_POOL_SIZE);

    let custom = from_str(
        r#"
[server]
bind_addr = "0.0.0.0:2333"
default_token = "t"
tcp_pool_size = 16
udp_pool_size = 4
[server.services.foo]
bind_addr = "0.0.0.0:8081"
"#,
    )
    .unwrap();
    let s = custom.server.unwrap();
    assert_eq!(s.tcp_pool_size, 16);
    assert_eq!(s.udp_pool_size, 4);

    let zero = from_str(
        r#"
[server]
bind_addr = "0.0.0.0:2333"
default_token = "t"
tcp_pool_size = 0
udp_pool_size = 0
[server.services.foo]
bind_addr = "0.0.0.0:8081"
"#,
    )
    .unwrap();
    let s = zero.server.unwrap();
    assert_eq!(s.tcp_pool_size, 0);
    assert_eq!(s.udp_pool_size, 0);
}

#[test]
fn test_server_dictionary_requires_compression() {
    let config = r#"
[server]
bind_addr = "0.0.0.0:2333"
default_token = "t"
[server.services.foo]
bind_addr = "0.0.0.0:8081"
compression_dictionary = "dictionary.bin"
"#;

    let error = from_str(config).err().unwrap();

    let message = error.message();
    assert!(message.contains("foo"));
    assert!(message.contains("requires `compression = \"zstd\"`"));
}

#[test]
fn test_unreadable_dictionary_error_contains_resolved_path() {
    let resolved = "/base/missing.dict";
    assert_eq!(
        Config::resolve_compression_dictionary_path(false, true),
        DictionaryPath::UnderBase
    );
    let mut files: DictionaryFiles = Table::new();
    files.insert(key("missing.dict"), Err(key(resolved)));
    let config = r#"
[server]
bind_addr = "0.0.0.0:2333"
default_token = "t"
[server.services.foo]
bind_addr = "0.0.0.0:8081"
compression = "zstd"
compression_dictionary = "missing.dict"
"#;

    let error = from_str_with_files(config, &files).err().unwrap();

    assert!(error.message().contains(resolved));
    assert_eq!(error.message(), "Failed to read compression dictionary at /base/missing.dict");
}

#[test]
fn test_relative_client_dictionary_resolves_from_base() {
    let expected_bytes = b"client dictionary";
    let mut files: DictionaryFiles = Table::new();
    files.insert(key("dictionary.bin"), Ok(expected_bytes.to_vec()));
    let config = r#"
[client]
remote_addr = "example.com:2333"
default_token = "t"
[client.services.foo]
local_addr = "127.0.0.1:80"
compression_dictionary = "dictionary.bin"
"#;

    let parsed = from_str_with_files(config, &files).ok().unwrap();

    let client = parsed.client.unwrap();
    let loaded =
        client.services.get(&key("foo")).unwrap().compression_dictionary_loaded.clone().unwrap();
    assert_eq!(loaded.bytes.as_slice(), expected_bytes);
}

#[test]
fn dictionary_paths_are_resolved_from_the_base() {
    assert_eq!(Config::resolve_compression_dictionary_path(true, true), DictionaryPath::AsIs);
    assert_eq!(Config::resolve_compression_dictionary_path(true, false), DictionaryPath::AsIs);
    assert_eq!(Config::resolve_compression_dictionary_path(false, false), DictionaryPath::AsIs);
}

#[test]
fn test_valid_server_dictionary_loads_bytes_and_digest() {
    let expected_bytes = b"server dictionary";
    let mut files: DictionaryFiles = Table::new();
    files.insert(key("/base/dictionary.bin"), Ok(expected_bytes.to_vec()));
    let config = r#"
[server]
bind_addr = "0.0.0.0:2333"
default_token = "t"
[server.services.foo]
bind_addr = "0.0.0.0:8081"
compression = "zstd"
compression_dictionary = "/base/dictionary.bin"
compression_auto_dictionary = true
"#;

    let parsed = from_str_with_files(config, &files).ok().unwrap();

    let server = parsed.server.unwrap();
    let service = server.services.get(&key("foo")).unwrap();
    let loaded = service.compression_dictionary_loaded.clone().unwrap();
    assert_eq!(loaded.bytes.as_slice(), expected_bytes);
    assert_eq!(loaded.digest, digest(expected_bytes));
    assert_eq!(service.compression_auto_dictionary, Some(false));
}

#[test]
fn a_static_dictionary_overrules_an_automatic_one_with_a_warning() {
    let mut s = ServerServiceConfig::with_name("foo");
    assert_eq!(static_dictionary_warning("foo", &s), None);
    s.compression = Some(CompressionType::Zstd);
    s.compression_dictionary = Some(key("d"));
    assert_eq!(static_dictionary_warning("foo", &s), None);
    s.compression_auto_dictionary = Some(true);
    assert_eq!(
        static_dictionary_warning("foo", &s).unwrap(),
        "Service foo: static `compression_dictionary` takes precedence; disabling \
         `compression_auto_dictionary`"
    );
}

#[test]
fn test_server_auto_dictionary_defaults_and_explicit_values() {
    let config = r#"
[server]
bind_addr = "0.0.0.0:2333"
default_token = "t"

[server.services.defaults]
bind_addr = "0.0.0.0:8081"
compression = "zstd"

[server.services.explicit]
bind_addr = "0.0.0.0:8082"
compression = "zstd"
compression_auto_dictionary = false
compression_sample_window = 22528000
compression_dictionary_max_size = 225280
"#;

    let parsed = from_str(config).ok().unwrap();

    let services = &parsed.server.as_ref().unwrap().services;
    let defaults = services.get(&key("defaults")).unwrap();
    assert_eq!(defaults.compression_auto_dictionary, Some(true));
    assert_eq!(defaults.compression_sample_window, Some(134_217_728));
    assert_eq!(defaults.compression_dictionary_max_size, Some(112_640));

    let explicit = services.get(&key("explicit")).unwrap();
    assert_eq!(explicit.compression_auto_dictionary, Some(false));
    assert_eq!(explicit.compression_sample_window, Some(22_528_000));
    assert_eq!(explicit.compression_dictionary_max_size, Some(225_280));
}

#[test]
fn test_masked_bytes_debug_includes_length() {
    let bytes = MaskedBytes::new(vec![1, 2, 3]);

    let debug = bytes.debug();

    assert_eq!(debug, "MASKED(3 bytes)");
}

#[test]
fn masked_strings_do_not_show() {
    let s = MaskedString::new("secret");
    assert_eq!(s.debug(), "MASKED");
    assert_eq!(s.as_str(), "secret");
    assert!(s.same(&s.clone()));
    assert!(!s.same(&MaskedString::new("other")));
}

#[test]
fn a_dictionary_carries_the_digest_of_its_bytes() {
    let d = LoadedDictionary::from_bytes(b"abc".to_vec());
    assert_eq!(d.digest, digest(b"abc"));
    assert!(d.same(&d.clone()));
    assert!(!d.same(&LoadedDictionary::from_bytes(b"abd".to_vec())));
}

fn validated(change: impl Fn(&mut ServerServiceConfig)) -> (ServerServiceConfig, Option<String>) {
    let mut s = ServerServiceConfig::with_name("");
    s.token = Some(MaskedString::new("t"));
    change(&mut s);
    let error = Config::validate_server_service(&key("foo"), &mut s, &None, &Table::new()).err();
    (s, error.map(|e| e.message()))
}

#[test]
fn each_rule_for_services_has_its_message() {
    type Change = fn(&mut ServerServiceConfig);
    let cases: [(Change, &str); 11] = [
        (|s| s.token = None, "The token of service foo is not set"),
        (
            |s| s.compression_auto_dictionary = Some(false),
            "Service foo: `compression_auto_dictionary` requires `compression = \"zstd\"` to be set",
        ),
        (
            |s| s.compression_sample_window = Some(1),
            "Service foo: `compression_sample_window` requires `compression = \"zstd\"` to be set",
        ),
        (
            |s| s.compression_dictionary_max_size = Some(1),
            "Service foo: `compression_dictionary_max_size` requires `compression = \"zstd\"` to be set",
        ),
        (
            |s| s.compression_level = Some(3),
            "Service foo: `compression_level` requires `compression = \"zstd\"` to be set",
        ),
        (
            |s| s.compression_dictionary = Some("d".to_string()),
            "Service foo: `compression_dictionary` requires `compression = \"zstd\"` to be set",
        ),
        (
            |s| {
                s.compression = Some(CompressionType::Zstd);
                s.compression_level = Some(23);
            },
            "Service foo: `compression_level` must be between 1 and 22",
        ),
        (
            |s| {
                s.compression = Some(CompressionType::Zstd);
                s.compression_dictionary_max_size = Some(16777217);
            },
            "Service foo: `compression_dictionary_max_size` must not exceed 16777216 bytes",
        ),
        (
            |s| {
                s.compression = Some(CompressionType::Zstd);
                s.compression_sample_window = Some(11263999);
            },
            "Service foo: `compression_sample_window` must be at least 100 times `compression_dictionary_max_size`",
        ),
        (
            |s| {
                s.connection_reuse = true;
                s.service_type = ServiceType::Udp;
            },
            "Service foo: `connection_reuse` is only supported for `type = \"tcp\"`",
        ),
        (
            |s| s.connection_reuse_max_idle = Some(1),
            "Service foo: `connection_reuse_max_idle` requires `connection_reuse = true` to be set",
        ),
    ];
    for (change, message) in cases {
        assert_eq!(validated(change).1.unwrap(), message);
    }
}

#[test]
fn a_sample_window_of_exactly_the_minimum_is_accepted() {
    let (s, error) = validated(|s| {
        s.compression = Some(CompressionType::Zstd);
        s.compression_sample_window = Some(11264000);
        s.connection_reuse = true;
    });
    assert!(error.is_none());
    assert_eq!(s.name, "foo");
    assert_eq!(s.connection_reuse_max_idle, Some(64));

    // Checking it once more changes nothing.
    let mut again = s.clone();
    assert!(Config::validate_server_service(&key("foo"), &mut again, &None, &Table::new()).is_ok());
    assert!(again.same(&s));
}

#[test]
fn a_client_service_takes_the_retry_interval_of_its_client() {
    let config = r#"
[client]
remote_addr = "example.com:2333"
default_token = "t"
retry_interval = 7
[client.services.foo]
local_addr = "127.0.0.1:80"
[client.services.bar]
local_addr = "127.0.0.1:81"
retry_interval = 3
"#;
    let client = from_str(config).ok().unwrap().client.unwrap();
    assert_eq!(client.services.get(&key("foo")).unwrap().retry_interval, Some(7));
    assert_eq!(client.services.get(&key("bar")).unwrap().retry_interval, Some(3));
    assert_eq!(client.services.get(&key("foo")).unwrap().name, "foo");
}

#[test]
fn transports_need_their_blocks() {
    let mut t = TransportConfig::default();
    assert!(Config::validate_transport_config(&t, true).is_ok());

    t.tcp = TcpConfig {
        proxy: Some(ProxyUrl { scheme: key("ftp"), url: key("ftp://p") }),
        ..TcpConfig::default()
    };
    let error = Config::validate_transport_config(&t, false).unwrap_err();
    assert_eq!(error.message(), "Unknown proxy scheme: ftp");
    t.tcp.proxy = Some(ProxyUrl { scheme: key("socks5"), url: key("socks5://p") });
    assert!(Config::validate_transport_config(&t, false).is_ok());

    t.transport_type = TransportType::Tls;
    let error = Config::validate_transport_config(&t, false).unwrap_err();
    assert_eq!(error.message(), "Missing TLS configuration");
    t.tls = Some(TlsConfig {
        hostname: None,
        trusted_root: None,
        pkcs12: None,
        pkcs12_password: None,
    });
    assert!(Config::validate_transport_config(&t, false).is_ok());
    let error = Config::validate_transport_config(&t, true).unwrap_err();
    assert_eq!(error.message(), "Missing `pkcs12` or `pkcs12_password`");

    t.transport_type = TransportType::Websocket;
    let error = Config::validate_transport_config(&t, true).unwrap_err();
    assert_eq!(error.message(), "Missing websocket configuration");
    t.websocket = Some(WebsocketConfig { tls: false, path: default_websocket_path() });
    assert!(Config::validate_transport_config(&t, true).is_ok());
    t.websocket = Some(WebsocketConfig { tls: true, path: default_websocket_path() });
    assert_eq!(
        Config::validate_transport_config(&t, true).unwrap_err(),
        ConfigError::MissingPkcs12
    );

    t.transport_type = TransportType::Noise;
    t.noise = Some(NoiseConfig {
        pattern: default_noise_pattern(),
        local_private_key: None,
        remote_public_key: None,
    });
    assert!(Config::validate_transport_config(&t, true).is_ok());
}

#[test]
fn defaults() {
    assert_eq!(default_noise_pattern(), "Noise_NK_25519_ChaChaPoly_BLAKE2s");
    assert_eq!(default_websocket_path(), "/");
    assert_eq!(default_service_type(), ServiceType::Tcp);
    assert_eq!(default_heartbeat_interval(), 30);
    assert_eq!(default_heartbeat_timeout(), 40);
    assert_eq!(default_client_retry_interval(), 1);
    assert_eq!(default_tcp_pool_size(), 8);
    assert_eq!(default_udp_pool_size(), 2);
    assert_eq!(
        TcpConfig::default(),
        TcpConfig {
            nodelay: default_nodelay(),
            keepalive_secs: default_keepalive_secs(),
            keepalive_interval: default_keepalive_interval(),
            proxy: None,
        }
    );
}

#[test]
fn a_refused_configuration_names_the_service() {
    let error = from_str(
        r#"
[client]
remote_addr = "example.com:2333"
[client.services.web]
local_addr = "127.0.0.1:80"
"#,
    )
    .err()
    .unwrap();
    assert_eq!(
        error,
        ConfigError::Service { name: key("web"), fault: ServiceFault::TokenNotSet }
    );
}

#[test]
fn a_role_needs_its_block() {
    let config = Config { server: Some(ServerConfig::default()), client: None };
    assert_eq!(
        config.into_client().err(),
        Some("Try to run as a client, but the configuration is missing. Please add the `[client]` block")
    );
    let config = Config { server: Some(ServerConfig::default()), client: None };
    assert!(config.into_server().is_ok());
    let config = Config { server: None, client: Some(ClientConfig::default()) };
    assert_eq!(
        config.into_server().err(),
        Some("Try to run as a server, but the configuration is missing. Please add the `[server]` block")
    );
    let config = Config { server: None, client: Some(ClientConfig::default()) };
    assert!(config.into_client().is_ok());
}
