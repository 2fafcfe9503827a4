use rathole::config::{TcpConfig, TlsConfig, TransportConfig, TransportType, WebsocketConfig};
use rathole::helper::{host_port_pair, AddrError};
use rathole::transport::der::{check_skip, read_any, read_element, read_number, write_element};
use rathole::transport::pkcs12::{open_archive, MAX_ITERATIONS};
use rathole::transport::rustls::{
    load_client_config, load_native_roots, load_server_config, pick_identity, roots_usable,
    server_name, TlsError,
};
use rathole::transport::websocket::{
    check_path, frame_payload, normalize_ws_path, websocket_handshake_uri, Frame, SubTransport,
    WebsocketTransport,
};

/// The root certificate "ISRG Root X2".
const ISRG_ROOT_X2: &str = "-----BEGIN CERTIFICATE-----
MIICGzCCAaGgAwIBAgIQQdKd0XLq7qeAwSxs6S+HUjAKBggqhkjOPQQDAzBPMQsw
CQYDVQQGEwJVUzEpMCcGA1UEChMgSW50ZXJuZXQgU2VjdXJpdHkgUmVzZWFyY2gg
R3JvdXAxFTATBgNVBAMTDElTUkcgUm9vdCBYMjAeFw0yMDA5MDQwMDAwMDBaFw00
MDA5MTcxNjAwMDBaME8xCzAJBgNVBAYTAlVTMSkwJwYDVQQKEyBJbnRlcm5ldCBT
ZWN1cml0eSBSZXNlYXJjaCBHcm91cDEVMBMGA1UEAxMMSVNSRyBSb290IFgyMHYw
EAYHKoZIzj0CAQYFK4EEACIDYgAEzZvVn4CDCuwJSvMWSj5cz3es3mcFDR0HttwW
+1qLFNvicWDEukWVEYmO6gbf9yoWHKS5xcUy4APgHoIYOIvXRdgKam7mAHf7AlF9
ItgKbppbd9/w+kHsOdx1ymgHDB/qo0IwQDAOBgNVHQ8BAf8EBAMCAQYwDwYDVR0T
AQH/BAUwAwEB/zAdBgNVHQ4EFgQUfEKWrt5LSDv6kviejM9ti6lyN5UwCgYIKoZI
zj0EAwMDaAAwZQIwe3lORlCEwkSHRhtFcP9Ymd70/aTSVaYgLXTWNLxBo1BfASdW
tL4ndQavEi51mI38AjEAi/V3bNTIZargCyzuFJ0nN6T5U6VR5CmD1/iQMVtCnwr1
/q4AaOeMSQ+2b1tbFfLn
-----END CERTIFICATE-----
";

fn config(websocket: Option<WebsocketConfig>, tls: Option<TlsConfig>) -> TransportConfig {
    TransportConfig {
        transport_type: TransportType::Websocket,
        tcp: TcpConfig::default(),
        tls,
        noise: None,
        websocket,
    }
}

fn tls(hostname: Option<&str>) -> TlsConfig {
    TlsConfig {
        hostname: hostname.map(|s| s.to_string()),
        trusted_root: None,
        pkcs12: None,
        pkcs12_password: None,
    }
}

#[test]
fn handshake_uri_ws_with_port() {
    assert_eq!(
        websocket_handshake_uri(false, "example.com:2333", None, "/").unwrap(),
        "ws://example.com:2333/"
    );
}

#[test]
fn handshake_uri_wss_omits_443() {
    assert_eq!(
        websocket_handshake_uri(true, "1.2.3.4:443", Some("tunnel.example.com"), "/rathole")
            .unwrap(),
        "wss://tunnel.example.com/rathole"
    );
}

#[test]
fn normalize_adds_leading_slash() {
    assert_eq!(normalize_ws_path("rathole"), "/rathole");
}

#[test]
fn normalized_paths_stay_as_they_are() {
    assert_eq!(normalize_ws_path(""), "/");
    assert_eq!(normalize_ws_path("/a"), "/a");
    for path in ["", "/", "x", "//x"] {
        let once = normalize_ws_path(path);
        assert_eq!(normalize_ws_path(&once), once);
    }
}

#[test]
fn handshake_uri_defaults_and_ipv6_hosts() {
    assert_eq!(websocket_handshake_uri(false, "h:80", None, "/").unwrap(), "ws://h/");
    assert_eq!(websocket_handshake_uri(false, "h:443", None, "/").unwrap(), "ws://h:443/");
    assert_eq!(websocket_handshake_uri(true, "h:80", Some(""), "/").unwrap(), "wss://h:80/");
    assert_eq!(
        websocket_handshake_uri(false, "::1:8080", None, "/x").unwrap(),
        "ws://[::1]:8080/x"
    );
    assert_eq!(
        websocket_handshake_uri(false, "[::1]:8080", None, "/x").unwrap(),
        "ws://[::1]:8080/x"
    );
    assert_eq!(
        websocket_handshake_uri(false, "nowhere", None, "/"),
        Err(AddrError::MissingPort)
    );
    assert_eq!(
        websocket_handshake_uri(false, "h:x", Some("name"), "/"),
        Err(AddrError::InvalidPort)
    );
}

#[test]
fn addresses_are_split_at_the_last_colon() {
    assert_eq!(host_port_pair("example.com:65535"), Ok(("example.com".to_string(), 65535)));
    assert_eq!(host_port_pair("a:b:0080"), Ok(("a:b".to_string(), 80)));
    assert_eq!(host_port_pair(":+7"), Ok((String::new(), 7)));
    for bad in ["a:", "a:+", "a:65536", "a:99999999999999999999", "a:-1", "a:1x", "a:++1"] {
        assert_eq!(host_port_pair(bad), Err(AddrError::InvalidPort), "{bad}");
    }
    assert_eq!(host_port_pair(""), Err(AddrError::MissingPort));
    assert_eq!(AddrError::MissingPort.message(), "missing port in address");
    assert_eq!(AddrError::InvalidPort.message(), "invalid port in address");
}

#[test]
fn websocket_path_match_and_mismatch() {
    assert_eq!(check_path("/rathole", "/rathole"), Ok(()));
    assert_eq!(
        check_path("/wrong", "/rathole"),
        Err("WebSocket path mismatch: got /wrong, expected /rathole".to_string())
    );
}

#[test]
fn only_binary_frames_carry_bytes() {
    assert_eq!(frame_payload(Frame::Binary(vec![1, 2])), Ok(vec![1, 2]));
    assert_eq!(frame_payload(Frame::Other), Err("unexpected frame"));
}

#[test]
fn websocket_runs_over_tcp_or_tls() {
    let missing = config(None, None);
    assert!(WebsocketTransport::new(&missing).is_none());

    let plain = config(Some(WebsocketConfig { tls: false, path: "p".to_string() }), None);
    let t = WebsocketTransport::new(&plain).unwrap();
    assert!(matches!(t.sub, SubTransport::Insecure));
    assert!(!t.tls);
    assert_eq!(t.path, "/p");
    assert!(t.hostname.is_none());

    let secure = config(
        Some(WebsocketConfig { tls: true, path: "/".to_string() }),
        Some(tls(Some("example.com"))),
    );
    let t = WebsocketTransport::new(&secure).unwrap();
    assert!(matches!(t.sub, SubTransport::Secure(c) if c.hostname.is_some()));
    assert_eq!(t.hostname.unwrap(), "example.com");

    let by_default = config(Some(WebsocketConfig { tls: true, path: "/".to_string() }), None);
    let t = WebsocketTransport::new(&by_default).unwrap();
    assert!(matches!(t.sub, SubTransport::SecureByDefault));
    assert!(t.tls);
}

#[test]
fn the_configured_name_goes_before_the_host() {
    assert_eq!(server_name(&tls(Some("n")), "h:1"), Ok("n".to_string()));
    assert_eq!(server_name(&tls(Some("")), "h:1"), Ok(String::new()));
    assert_eq!(server_name(&tls(None), "h:1"), Ok("h".to_string()));
    assert_eq!(server_name(&tls(Some("n")), "h"), Err(AddrError::MissingPort));
}

#[test]
fn a_server_presents_all_certificates_and_the_first_key() {
    let identity = pick_identity(Ok(vec![vec![1], vec![2]]), Ok(vec![vec![3], vec![4]])).unwrap();
    assert_eq!(identity.chain, vec![vec![1], vec![2]]);
    assert_eq!(identity.key, vec![3]);
    assert!(matches!(pick_identity(Ok(vec![]), Ok(vec![])), Err(TlsError::NoKey)));
    assert!(matches!(
        pick_identity(Err("certs".to_string()), Err("keys".to_string())),
        Err(TlsError::Malformed(why)) if why == "certs"
    ));
    assert!(matches!(
        pick_identity(Ok(vec![]), Err("keys".to_string())),
        Err(TlsError::Malformed(why)) if why == "keys"
    ));
}

#[test]
fn an_archive_gives_back_its_certificates_and_its_key() {
    let pfx = p12::PFX::new(b"certificate", b"private key", Some(b"authority"), "secret", "name")
        .unwrap();
    let archive = pfx.to_der();

    let identity = load_server_config(&archive, "secret").ok().unwrap();
    assert_eq!(identity.chain, vec![b"certificate".to_vec(), b"authority".to_vec()]);
    assert_eq!(identity.key, b"private key".to_vec());

    assert!(matches!(load_server_config(&archive, "wrong"), Err(TlsError::Malformed(_))));
    assert!(matches!(load_server_config(b"no archive", "secret"), Err(TlsError::Malformed(_))));
}

/// The bytes of an address.
const SIZE: usize = std::mem::size_of::<usize>();

/// A DER element with the content.
fn tlv(identifier: u8, content: &[u8]) -> Vec<u8> {
    let mut out = vec![identifier];
    match content.len() {
        n @ 0..=127 => out.push(n as u8),
        n => out.extend_from_slice(&[0x82, (n / 256) as u8, (n % 256) as u8]),
    }
    out.extend_from_slice(content);
    out
}

/// An object identifier below 1.2.840.113549.1.
fn oid(arcs: &[u8]) -> Vec<u8> {
    tlv(0x06, &[&[0x2a, 0x86, 0x48, 0x86, 0xf7, 0x0d, 0x01], arcs].concat())
}

fn archive_of(auth_safe: p12::ContentInfo) -> Vec<u8> {
    p12::PFX { version: 3, auth_safe, mac_data: None }.to_der()
}

/// An archive whose safe holds the content infos.
fn archive(contents: &[Vec<u8>]) -> Vec<u8> {
    archive_of(p12::ContentInfo::Data(tlv(0x30, &contents.concat())))
}

fn utf16(password: &str) -> Vec<u8> {
    let mut out: Vec<u8> = password.encode_utf16().flat_map(|unit| unit.to_be_bytes()).collect();
    out.extend_from_slice(&[0, 0]);
    out
}

fn key_bag(iterations: u64) -> p12::SafeBag {
    let params = p12::Pkcs12PbeParams { salt: vec![1; 8], iterations };
    p12::SafeBag {
        bag: p12::SafeBagKind::Pkcs8ShroudedKeyBag(p12::EncryptedPrivateKeyInfo {
            encryption_algorithm: p12::AlgorithmIdentifier::PbeWithSHAAnd3KeyTripleDESCBC(params),
            encrypted_data: vec![0; 16],
        }),
        attributes: Vec::new(),
    }
}

/// A content info whose encryption has the version, the type of content and the count.
fn encrypted(version: u8, content_arcs: &[u8], iterations: &[u8]) -> Vec<u8> {
    let params = [tlv(0x04, &[1; 8]), tlv(0x02, iterations)].concat();
    let algorithm = [oid(&[12, 1, 6]), tlv(0x30, &params)].concat();
    let info = [oid(content_arcs), tlv(0x30, &algorithm), tlv(0x80, &[0; 16])].concat();
    let data = [tlv(0x02, &[version]), tlv(0x30, &info)].concat();
    tlv(0x30, &[oid(&[7, 6]), tlv(0xa0, &tlv(0x30, &data))].concat())
}

fn unreadable(archive: &[u8], password: &str) -> bool {
    matches!(load_server_config(archive, password), Err(TlsError::Unreadable))
}

#[test]
fn an_archive_without_keys_is_read() {
    let empty = p12::ContentInfo::Data(tlv(0x30, &[])).to_der();
    assert!(matches!(load_server_config(&archive(&[empty]), "secret"), Err(TlsError::NoKey)));
    assert!(matches!(load_server_config(&archive(&[]), "secret"), Err(TlsError::NoKey)));
}

/// A certificate and a private key in bags.
fn identity_bags(password: &str) -> Vec<p12::SafeBag> {
    p12::PFX::new(b"certificate", b"private key", None, password, "name")
        .unwrap()
        .bags(password)
        .unwrap()
}

/// The bags in encrypted data.
fn encrypted_bags(bags: &[p12::SafeBag], password: &str) -> p12::ContentInfo {
    p12::ContentInfo::EncryptedData(
        p12::EncryptedData::from_safe_bags(bags, &utf16(password)).unwrap(),
    )
}

/// The content info with another version and content type of its encrypted data.
fn disguised(info: &[u8], version: &[u8], content_arcs: &[u8]) -> Vec<u8> {
    let (content, _) = read_element(info, 0x30).unwrap();
    let (_, rest) = read_element(content, 0x06).unwrap();
    let (value, _) = read_element(rest, 0xa0).unwrap();
    let (data, _) = read_element(value, 0x30).unwrap();
    let (_, rest) = read_element(data, 0x02).unwrap();
    let (about, _) = read_element(rest, 0x30).unwrap();
    let (_, algorithm) = read_element(about, 0x06).unwrap();
    let about = [oid(content_arcs), algorithm.to_vec()].concat();
    let data = [tlv(0x02, version), tlv(0x30, &about)].concat();
    tlv(0x30, &[oid(&[7, 6]), tlv(0xa0, &tlv(0x30, &data))].concat())
}

fn holds_the_identity(archive: &[u8], password: &str) -> bool {
    match load_server_config(archive, password) {
        Ok(identity) => {
            identity.chain == vec![b"certificate".to_vec()] && identity.key == b"private key"
        }
        Err(_) => false,
    }
}

#[test]
fn any_version_and_type_of_encrypted_data_is_read() {
    let info = encrypted_bags(&identity_bags("secret"), "secret").to_der();
    assert!(holds_the_identity(&archive(&[info.clone()]), "secret"));
    assert_eq!(open_archive(&archive(&[info.clone()]), "secret"), Some(archive(&[info.clone()])));

    let empty = p12::ContentInfo::Data(tlv(0x30, &[])).to_der();
    let arcs: [&[u8]; 4] = [&[7, 1], &[7, 2], &[7, 1, 5, 0x83, 0x01], &[]];
    for version in [&[0u8][..], &[1], &[127], &[0, 200]] {
        for content_arcs in arcs {
            let odd = disguised(&info, version, content_arcs);
            let archive = archive(&[empty.clone(), odd, empty.clone()]);
            assert!(holds_the_identity(&archive, "secret"));
            let wrong = load_server_config(&archive, "wrong");
            assert!(matches!(wrong, Err(TlsError::Malformed(_))));
        }
    }
    // No version, no number below 256, and no object identifier.
    for version in [&[][..], &[128], &[0, 1], &[1, 0]] {
        assert!(load_server_config(&archive(&[disguised(&info, version, &[7, 1])]), "secret").is_err());
    }
    let long = [0xff, 0xff, 0xff, 0xff, 0xff, 0xff, 0xff, 0xff, 0xff, 0xff, 0x01];
    for content_arcs in [&[0x81][..], &[0x80, 0x01], &long] {
        let odd = disguised(&info, &[0], content_arcs);
        assert!(load_server_config(&archive(&[odd]), "secret").is_err());
    }
}

#[test]
fn an_encrypted_safe_is_read_whatever_its_version() {
    // A bag of an unknown type is written as a content info of that type is.
    let bag = |info: &p12::ContentInfo, value: &[u8]| p12::SafeBag {
        bag: p12::SafeBagKind::OtherBagKind(p12::OtherBag {
            bag_id: info.oid(),
            bag_value: value.to_vec(),
        }),
        attributes: Vec::new(),
    };
    let hidden = encrypted_bags(&identity_bags("secret"), "secret");
    for version in [0, 1] {
        let odd = disguised(&hidden.to_der(), &[version], &[7, 3 - version]);
        let (content, _) = read_element(&odd, 0x30).unwrap();
        let (_, rest) = read_element(content, 0x06).unwrap();
        let (value, _) = read_element(rest, 0xa0).unwrap();
        let safe = encrypted_bags(&[bag(&hidden, value)], "secret").to_der();
        for outer in [0, 1] {
            let safe = disguised(&safe, &[outer], &[7, 1 + outer]);
            let archive = tlv(0x30, &[tlv(0x02, &[3]), safe].concat());
            assert!(holds_the_identity(&archive, "secret"));
            assert!(load_server_config(&archive, "wrong").is_err());
        }
    }
}

#[test]
fn too_many_iterations_are_refused() {
    let above = MAX_ITERATIONS + 1;
    let count = above.to_be_bytes();
    assert!(unreadable(&archive(&[encrypted(0, &[7, 1], &count[..])]), "secret"));
    assert!(unreadable(&archive(&[encrypted(1, &[7, 1], &count[..])]), "secret"));

    // In a key that is in plain sight, and in one that comes to light with the password.
    for password in ["secret", "pa\u{df}wort \u{1d11e}", ""] {
        for iterations in [above, u64::MAX] {
            let hidden = encrypted_bags(&[key_bag(iterations)], password).to_der();
            assert!(unreadable(&archive(&[hidden]), password));
        }
    }
    let params = [tlv(0x04, &[1; 8]), tlv(0x02, &[0x7f; 8])].concat();
    let algorithm = [oid(&[12, 1, 3]), tlv(0x30, &params)].concat();
    let key = [tlv(0x30, &algorithm), tlv(0x04, &[0; 16])].concat();
    let bag = [oid(&[12, 10, 1, 2]), tlv(0xa0, &tlv(0x30, &key))].concat();
    let bags = tlv(0x30, &tlv(0x30, &bag));
    assert!(unreadable(&archive(&[p12::ContentInfo::Data(bags).to_der()]), "secret"));
}

#[test]
fn what_is_skipped_is_not_looked_into() {
    let mut deep = tlv(0x04, &[]);
    for _ in 0..300 {
        deep = tlv(0x30, &deep);
    }
    let mut overflowing = vec![0x04, 0x88];
    overflowing.extend_from_slice(&[0xff; 8]);
    let odd = tlv(0x30, &overflowing);
    for value in [deep, odd] {
        let other = p12::SafeBag {
            bag: p12::SafeBagKind::OtherBagKind(p12::OtherBag {
                bag_id: p12::ContentInfo::Data(Vec::new()).oid(),
                bag_value: value.clone(),
            }),
            attributes: vec![p12::PKCS12Attribute::Other(p12::OtherAttribute {
                oid: p12::ContentInfo::Data(Vec::new()).oid(),
                data: vec![value],
            })],
        };
        let mut bags = vec![other];
        bags.extend(identity_bags("secret"));
        let info = encrypted_bags(&bags, "secret").to_der();
        assert!(holds_the_identity(&archive(&[info]), "secret"));
    }
}

#[test]
fn a_length_that_overflows_is_refused() {
    let value = [[0x04, 0x80 + SIZE as u8].to_vec(), vec![0xff; SIZE]].concat();
    let data = |bags: &[u8]| archive(&[p12::ContentInfo::Data(tlv(0x30, bags)).to_der()]);

    // In a bag, in an attribute, in a content info, in parameters and in the MAC.
    let bag = [oid(&[12, 10, 1, 5]), tlv(0xa0, &value)].concat();
    assert!(unreadable(&data(&tlv(0x30, &bag)), "secret"));
    let attribute = [oid(&[9, 99]), tlv(0x31, &[tlv(0x04, b"x"), value.clone()].concat())].concat();
    let attributes = tlv(0x31, &tlv(0x30, &attribute));
    let bag = [oid(&[12, 10, 1, 5]), tlv(0xa0, &tlv(0x04, b"x")), attributes].concat();
    assert!(unreadable(&data(&tlv(0x30, &bag)), "secret"));
    let content = tlv(0x30, &[oid(&[7, 5]), tlv(0xa0, &value)].concat());
    assert!(unreadable(&archive(&[content]), "secret"));
    let algorithm = tlv(0x30, &[oid(&[5, 13]), value.clone()].concat());
    let about = tlv(0x30, &[oid(&[7, 1]), algorithm.clone(), tlv(0x80, &[0; 16])].concat());
    let encrypted = tlv(0xa0, &tlv(0x30, &[tlv(0x02, &[0]), about].concat()));
    let content = tlv(0x30, &[oid(&[7, 6]), encrypted].concat());
    assert!(unreadable(&archive(&[content]), "secret"));
    let safe = p12::ContentInfo::Data(tlv(0x30, &[])).to_der();
    let mac = tlv(0x30, &tlv(0x30, &algorithm));
    let pfx = tlv(0x30, &[tlv(0x02, &[3]), safe, mac].concat());
    assert!(unreadable(&pfx, "secret"));

    // One that is only cut short, and one that is too long for any reader.
    let too_long = [[0x04, 0x81 + SIZE as u8].to_vec(), vec![0xff; SIZE + 1]].concat();
    for value in [&[0x04, 9][..], &[0x04, 0x84, 0x7f, 0xff, 0xff, 0xff], &too_long] {
        let bag = [oid(&[12, 10, 1, 5]), tlv(0xa0, value)].concat();
        let refused = load_server_config(&data(&tlv(0x30, &bag)), "secret");
        assert!(matches!(refused, Err(TlsError::Malformed(_))));
    }
}

#[test]
fn an_archive_opens_with_any_password() {
    for password in ["", "pa\u{df}wort \u{1d11e}"] {
        let pfx = p12::PFX::new(b"certificate", b"private key", None, password, "n").unwrap();
        let identity = load_server_config(&pfx.to_der(), password).unwrap();
        assert_eq!(identity.chain, vec![b"certificate".to_vec()]);
        assert_eq!(identity.key, b"private key".to_vec());
    }
}

#[test]
fn elements_are_read_one_by_one() {
    assert_eq!(read_element(&[0x04, 2, 7, 8, 9], 0x04), Some((&[7u8, 8][..], &[9u8][..])));
    assert_eq!(read_element(&[0x04, 2, 7, 8, 9], 0x30), None);
    assert_eq!(read_element(&[0x04, 2, 7], 0x04), None);
    assert_eq!(read_element(&[0x04, 0x81, 1, 7], 0x04), Some((&[7u8][..], &[][..])));
    assert_eq!(read_element(&[0x04, 0x80, 7, 0, 0], 0x04), None);
    assert_eq!(read_element(&[0x1f, 0x81, 0x01, 1, 7], 0x1f), Some((&[7u8][..], &[][..])));
    assert_eq!(read_element(&[], 0x04), None);

    assert_eq!(read_any(&[0x05, 0, 1]), Some((&[][..], &[1u8][..])));

    assert_eq!(read_number(&[], 1000), Some(0));
    assert_eq!(read_number(&[0, 0, 3, 0xe8], 1000), Some(1000));
    assert_eq!(read_number(&[3, 0xe9], 1000), None);
    assert_eq!(read_number(&[0xff; 8], u64::MAX), Some(u64::MAX));
    assert_eq!(read_number(&[0xff; 40], u64::MAX), None);

    assert!(check_skip(&[]));
    assert!(check_skip(&[0x04, 2, 7, 8]));
    assert!(check_skip(&[0x04, 0x84, 0x7f, 0xff, 0xff, 0xff]));
    assert!(!check_skip(&[[0x04, 0x80 + SIZE as u8].to_vec(), vec![0xff; SIZE]].concat()));
    assert!(check_skip(&[[0x04, 0x81 + SIZE as u8].to_vec(), vec![0xff; SIZE + 1]].concat()));
}

#[test]
fn a_written_element_is_read_back() {
    for len in [0, 1, 127, 128, 255, 256, 65535, 65536] {
        let content = vec![7; len];
        let mut bytes = write_element(0x30, &content);
        let header = match len {
            0..=127 => vec![0x30, len as u8],
            128..=255 => vec![0x30, 0x81, len as u8],
            256..=65535 => vec![0x30, 0x82, (len / 256) as u8, (len % 256) as u8],
            _ => vec![0x30, 0x83, 1, 0, 0],
        };
        assert_eq!(bytes[..header.len()], header[..]);
        bytes.extend_from_slice(b"rest");
        assert_eq!(read_element(&bytes, 0x30), Some((&content[..], &b"rest"[..])));
    }
}

#[test]
fn a_trusted_root_without_certificates_is_refused() {
    assert!(matches!(load_client_config(b""), Err(TlsError::NoTrustedRoot)));
    // One that rustls cannot parse.
    let pem = b"-----BEGIN CERTIFICATE-----\nAAAA\n-----END CERTIFICATE-----\n";
    assert!(matches!(load_client_config(pem), Err(TlsError::NoTrustedRoot)));
    let broken = b"-----BEGIN CERTIFICATE-----\nAAAA\n";
    assert!(matches!(load_client_config(broken), Err(TlsError::Malformed(_))));
}

#[test]
fn client_config_without_trusted_root_loads_system_roots() {
    let mut reader = ISRG_ROOT_X2.as_bytes();
    let mut found: Vec<Vec<u8>> = Vec::new();
    for cert in rustls_pemfile::certs(&mut reader) {
        found.push(cert.unwrap().to_vec());
    }
    assert_eq!(found.len(), 1);
    assert_eq!(load_native_roots(found, "[]".to_string()).expect("system roots").len(), 1);

    let error = load_native_roots(Vec::new(), "[]".to_string()).err().unwrap();
    assert_eq!(error.message(), "Failed to load native certs: []");
    let error = load_native_roots(vec![vec![0]], "[]".to_string()).err().unwrap();
    assert_eq!(error, TlsError::NoNativeRoots("[]".to_string()));
}

#[test]
fn a_trusted_root_is_loaded_from_a_pem_file() {
    assert_eq!(load_client_config(ISRG_ROOT_X2.as_bytes()).unwrap().len(), 1);
}

#[test]
fn tls_errors_say_what_is_wrong() {
    assert_eq!(TlsError::MissingConfig.message(), "Missing tls config");
    assert_eq!(TlsError::NoKey.message(), "No private key in `tls.pkcs12`");
    assert_eq!(TlsError::NoTrustedRoot.message(), "No certificates in `tls.trusted_root`");
    assert_eq!(TlsError::Unreadable.message(), "Unsupported archive in `tls.pkcs12`");
    assert_eq!(TlsError::Malformed("x".to_string()).message(), "x");
    assert!(roots_usable(1, 1));
    assert!(!roots_usable(0, 0));
    assert!(!roots_usable(3, 0));
}
