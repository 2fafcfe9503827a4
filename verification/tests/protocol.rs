use rathole::protocol::{
    digest, read_ack, read_auth, read_control_cmd, read_data_cmd, read_hello, same_addr,
    same_digest, zero, Ack, Auth, ControlChannelCmd, DataChannelCmd, Hello, PacketLength, Parsed,
    ProtocolError, SocketAddr, UdpTraffic, CURRENT_PROTO_VERSION, HASH_WIDTH_IN_BYTES,
    MAX_DICT_PUSH_BYTES,
};

/// Gives a reader exactly the bytes that it asks for, and returns what it read and how many
/// bytes it took.
fn drive<T>(
    stream: &[u8],
    read: impl Fn(&[u8]) -> Result<Parsed<T>, ProtocolError>,
) -> Result<(T, usize), ProtocolError> {
    let mut have: usize = 0;
    loop {
        match read(&stream[..have])? {
            Parsed::NeedMore(n) => {
                assert!(n > 0);
                assert!(have + n <= stream.len(), "asked for bytes that never come");
                have += n;
            }
            Parsed::Done { value, used } => {
                assert_eq!(used, have);
                return Ok((value, used));
            }
        }
    }
}

#[test]
fn test_existing_control_cmd_wire_encoding() {
    let create_data_channel = ControlChannelCmd::CreateDataChannel.encode();
    let heartbeat = ControlChannelCmd::HeartBeat.encode();

    assert_eq!(create_data_channel, [0, 0, 0, 0]);
    assert_eq!(heartbeat, [1, 0, 0, 0]);
}

#[test]
fn test_update_compression_dict_control_cmd_roundtrip() {
    let command = ControlChannelCmd::UpdateCompressionDict {
        digest: [7; HASH_WIDTH_IN_BYTES],
        dictionary: vec![1, 2, 3, 4, 5],
    };
    let bytes = command.encode();

    let (decoded, used) = drive(&bytes, read_control_cmd).unwrap();

    assert!(decoded == command);
    assert_eq!(used, bytes.len());
}

#[test]
fn test_update_compression_dict_control_cmd_does_not_overread() {
    let update = ControlChannelCmd::UpdateCompressionDict {
        digest: [7; HASH_WIDTH_IN_BYTES],
        dictionary: vec![1, 2, 3, 4, 5],
    };
    let heartbeat = ControlChannelCmd::HeartBeat;
    let mut bytes = update.encode();
    bytes.extend_from_slice(&heartbeat.encode());

    let (decoded_update, used) = drive(&bytes, read_control_cmd).unwrap();
    let (decoded_heartbeat, rest) = drive(&bytes[used..], read_control_cmd).unwrap();

    assert!(decoded_update == update);
    assert!(decoded_heartbeat == heartbeat);
    assert_eq!(used + rest, bytes.len());
}

#[test]
fn test_update_compression_dict_rejects_oversized_length() {
    let mut bytes = 2u32.to_le_bytes().to_vec();
    bytes.extend_from_slice(&[7; HASH_WIDTH_IN_BYTES]);
    bytes.extend_from_slice(&u64::MAX.to_le_bytes());

    let error = drive(&bytes, read_control_cmd).err().unwrap();

    assert!(error.message().contains("dictionary too large"));
}

#[test]
fn the_largest_dictionary_is_accepted_and_the_next_is_not() {
    let mut bytes = 2u32.to_le_bytes().to_vec();
    bytes.extend_from_slice(&[7; HASH_WIDTH_IN_BYTES]);
    let mut largest = bytes.clone();
    largest.extend_from_slice(&MAX_DICT_PUSH_BYTES.to_le_bytes());
    bytes.extend_from_slice(&(MAX_DICT_PUSH_BYTES + 1).to_le_bytes());

    assert!(matches!(
        read_control_cmd(&largest),
        Ok(Parsed::NeedMore(n)) if n as u64 == MAX_DICT_PUSH_BYTES
    ));
    assert!(matches!(read_control_cmd(&bytes), Err(ProtocolError::DictionaryTooLarge)));
}

#[test]
fn test_update_compression_dict_debug_masks_dictionary() {
    let command = ControlChannelCmd::UpdateCompressionDict {
        digest: [7; HASH_WIDTH_IN_BYTES],
        dictionary: vec![0; 4096],
    };

    let debug = command.debug();

    assert!(debug.len() < 200);
    assert!(!debug.contains("[0, 0, 0, 0"));
}

#[test]
fn control_commands_show_their_names_in_logs() {
    assert_eq!(ControlChannelCmd::CreateDataChannel.debug(), "CreateDataChannel");
    assert_eq!(ControlChannelCmd::HeartBeat.debug(), "HeartBeat");
    let command = ControlChannelCmd::UpdateCompressionDict {
        digest: [0; HASH_WIDTH_IN_BYTES],
        dictionary: vec![1, 2, 3],
    };
    assert!(command.debug().starts_with("UpdateCompressionDict { digest: [0, 0, "));
    assert!(command.debug().ends_with("], dictionary: MASKED(3 bytes) }"));
}

#[test]
fn test_existing_data_cmd_wire_encoding() {
    let tcp = DataChannelCmd::StartForwardTcp.encode();
    let udp = DataChannelCmd::StartForwardUdp.encode();

    assert_eq!(tcp, [0, 0, 0, 0]);
    assert_eq!(udp, [1, 0, 0, 0]);
}

#[test]
fn test_zstd_data_cmd_roundtrip() {
    let commands = [
        DataChannelCmd::StartForwardTcpZstd { dict_digest: [7; HASH_WIDTH_IN_BYTES] },
        DataChannelCmd::StartForwardUdpZstd { dict_digest: [9; HASH_WIDTH_IN_BYTES] },
    ];

    for command in commands {
        let bytes = command.encode();
        let (decoded, used) = drive(&bytes, read_data_cmd).unwrap();
        assert_eq!(decoded, command);
        assert_eq!(used, bytes.len());
    }
}

#[test]
fn reuse_data_cmd_roundtrip() {
    let plain = DataChannelCmd::StartForwardTcpReuse;
    let zstd = DataChannelCmd::StartForwardTcpZstdReuse { dict_digest: [5; HASH_WIDTH_IN_BYTES] };
    assert_eq!(plain.encode(), [4, 0, 0, 0]);
    assert_eq!(zstd.encode()[..4], [5, 0, 0, 0]);
    assert_eq!(drive(&plain.encode(), read_data_cmd).unwrap().0, plain);
    assert_eq!(drive(&zstd.encode(), read_data_cmd).unwrap().0, zstd);
}

#[test]
fn test_unit_data_cmd_does_not_overread() {
    let sentinel = [0xAA; HASH_WIDTH_IN_BYTES];
    let mut bytes = DataChannelCmd::StartForwardTcp.encode();
    bytes.extend_from_slice(&sentinel);

    let (command, used) = drive(&bytes, read_data_cmd).unwrap();
    let remaining = &bytes[used..];

    assert_eq!(command, DataChannelCmd::StartForwardTcp);
    assert_eq!(remaining, sentinel);
}

#[test]
fn hello_layout_and_roundtrip() {
    let control = Hello::ControlChannelHello(CURRENT_PROTO_VERSION, [3; HASH_WIDTH_IN_BYTES]);
    let data = Hello::DataChannelHello(CURRENT_PROTO_VERSION, [4; HASH_WIDTH_IN_BYTES]);

    let bytes = control.encode();
    assert_eq!(bytes.len(), PacketLength::new().hello);
    assert_eq!(bytes[..4], [0, 0, 0, 0]);
    assert_eq!(bytes[4], CURRENT_PROTO_VERSION);
    assert_eq!(bytes[5..], [3; HASH_WIDTH_IN_BYTES]);
    assert!(matches!(
        drive(&bytes, read_hello).unwrap().0,
        Hello::ControlChannelHello(v, d) if v == CURRENT_PROTO_VERSION && d == [3; 32]
    ));

    let bytes = data.encode();
    assert_eq!(bytes[..4], [1, 0, 0, 0]);
    assert!(matches!(
        drive(&bytes, read_hello).unwrap().0,
        Hello::DataChannelHello(v, d) if v == CURRENT_PROTO_VERSION && d == [4; 32]
    ));
}

#[test]
fn hello_of_another_version_is_refused() {
    let error =
        drive(&Hello::DataChannelHello(9, [4; HASH_WIDTH_IN_BYTES]).encode(), read_hello).err();
    assert_eq!(error, Some(ProtocolError::VersionMismatch(9)));
    assert_eq!(
        error.unwrap().message(),
        "Protocol version mismatched. Expected 1, got 9. Please update `rathole`."
    );
}

#[test]
fn unknown_tags_are_refused() {
    let mut hello = vec![2u8, 0, 0, 0, CURRENT_PROTO_VERSION];
    hello.extend_from_slice(&[0; HASH_WIDTH_IN_BYTES]);
    let error = drive(&hello, read_hello).err().unwrap();
    assert_eq!(error, ProtocolError::DeserializeHello);
    assert_eq!(error.message(), "Failed to deserialize hello");

    let error = drive(&[3, 0, 0, 0], read_ack).err().unwrap();
    assert_eq!(error, ProtocolError::DeserializeAck);
    assert_eq!(error.message(), "Failed to deserialize ack");

    let error = drive(&[3, 0, 0, 0], read_control_cmd).err().unwrap();
    assert_eq!(error, ProtocolError::UnknownControlTag(3));
    assert_eq!(error.message(), "Unknown ControlChannelCmd tag: 3");

    let error = drive(&[6, 1, 0, 0], read_data_cmd).err().unwrap();
    assert_eq!(error, ProtocolError::UnknownDataTag(262));
    assert_eq!(error.message(), "Unknown DataChannelCmd tag: 262");
}

#[test]
fn auth_is_the_bare_digest() {
    let auth = Auth([8; HASH_WIDTH_IN_BYTES]);
    assert_eq!(auth.encode(), [8; HASH_WIDTH_IN_BYTES]);
    assert_eq!(drive(&auth.encode(), read_auth).unwrap().0 .0, [8; HASH_WIDTH_IN_BYTES]);
    assert!(matches!(read_auth(&[1, 2, 3]), Ok(Parsed::NeedMore(29))));
}

#[test]
fn acks_have_their_tags_and_messages() {
    for (ack, tag, message) in [
        (Ack::Accepted, 0u8, "Ok"),
        (Ack::ServiceNotExist, 1, "Service not exist"),
        (Ack::AuthFailed, 2, "Incorrect token"),
    ] {
        assert_eq!(ack.encode(), [tag, 0, 0, 0]);
        assert_eq!(drive(&ack.encode(), read_ack).unwrap().0, ack);
        assert_eq!(ack.message(), message);
    }
}

#[test]
fn packet_lengths() {
    let p = PacketLength::new();
    assert_eq!((p.hello, p.ack, p.auth, p.c_cmd, p.d_cmd), (37, 4, 32, 4, 4));
}

#[test]
fn digest_is_sha256() {
    assert_eq!(
        digest(b"abc")[..8],
        [0xba, 0x78, 0x16, 0xbf, 0x8f, 0x01, 0xcf, 0xea]
    );
    assert!(same_digest(&zero(), &[0; HASH_WIDTH_IN_BYTES]));
    assert!(!same_digest(&digest(b"abc"), &digest(b"abd")));
}

#[test]
fn udp_datagrams_keep_their_address_and_payload() {
    let v4 = SocketAddr::V4 { ip: [10, 0, 0, 1], port: 4242 };
    let v6 = SocketAddr::V6 { ip: [1, 2, 3, 4, 5, 6, 7, 8, 9, 10, 11, 12, 13, 14, 15, 16], port: 53 };
    for from in [v4, v6] {
        for data in [&b""[..], &b"hello"[..]] {
            let bytes = UdpTraffic::write_slice(from, data);
            assert_eq!(bytes, UdpTraffic::new(from, data).write());
            let hdr_len = bytes[0];
            let (traffic, used) = drive(&bytes[1..], |b| UdpTraffic::read(b, hdr_len)).unwrap();
            assert!(same_addr(&traffic.from, &from));
            assert_eq!(traffic.payload(), data);
            assert_eq!(used + 1, bytes.len());
        }
    }
    assert!(!same_addr(&v4, &v6));
}

#[test]
fn udp_header_is_laid_out_in_little_endian() {
    let from = SocketAddr::V4 { ip: [10, 0, 0, 1], port: 0x1234 };
    assert_eq!(
        UdpTraffic::write_slice(from, b"xy"),
        [12, 0, 0, 0, 0, 10, 0, 0, 1, 0x34, 0x12, 2, 0, b'x', b'y']
    );
}

#[test]
fn a_malformed_udp_header_is_refused() {
    let error = drive(&[7u8; 12], |b| UdpTraffic::read(b, 12)).err().unwrap();
    assert_eq!(error, ProtocolError::DeserializeUdpHeader);
    assert_eq!(error.message(), "Failed to deserialize UdpHeader");
}

#[test]
fn readers_ask_for_no_byte_behind_the_message() {
    let auth = Auth([3; HASH_WIDTH_IN_BYTES]).encode();
    for k in 0..auth.len() {
        assert!(matches!(read_auth(&auth[..k]), Ok(Parsed::NeedMore(n)) if k + n == auth.len()));
    }
    let ack = Ack::AuthFailed.encode();
    for k in 0..ack.len() {
        assert!(matches!(read_ack(&ack[..k]), Ok(Parsed::NeedMore(n)) if k + n == ack.len()));
    }
    let from = SocketAddr::V4 { ip: [10, 0, 0, 1], port: 53 };
    let datagram = UdpTraffic::write_slice(from, b"query");
    for k in 1..datagram.len() {
        let read = UdpTraffic::read(&datagram[1..k], datagram[0]);
        assert!(matches!(read, Ok(Parsed::NeedMore(n)) if n > 0 && k + n <= datagram.len()));
    }
}

#[test]
fn an_oversized_dictionary_is_refused_before_it_is_received() {
    let command = ControlChannelCmd::UpdateCompressionDict {
        digest: [7; HASH_WIDTH_IN_BYTES],
        dictionary: vec![0; MAX_DICT_PUSH_BYTES as usize + 1],
    };
    let bytes = command.encode();
    assert!(matches!(read_control_cmd(&bytes[..43]), Ok(Parsed::NeedMore(1))));
    assert!(matches!(
        read_control_cmd(&bytes[..44]),
        Err(ProtocolError::DictionaryTooLarge)
    ));
    assert!(matches!(read_control_cmd(&bytes), Err(ProtocolError::DictionaryTooLarge)));
}
