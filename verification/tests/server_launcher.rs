use packet_relay::server_launcher::gameplay::{
    PlayerData, PlayerDataPacket, VehicleConfirmPacket, VehicleDeletePacket,
    VehicleTransformPacket, VehicleUpdatePacket,
};
use packet_relay::server_launcher::generic::ConfirmationPacket;
use packet_relay::server_launcher::handshake::{AuthenticationPacket, VersionPacket};
use packet_relay::server_launcher::serverinfo::{LoadMapPacket, ServerInfoPacket};
use packet_relay::server_launcher::Packet;
use packet_relay::{PacketDecodeError, PacketTrait};

fn size(expected: usize, actual: usize) -> PacketDecodeError {
    PacketDecodeError::InvalidDataSize { expected, actual }
}

#[test]
fn confirmation_is_two_bytes() {
    assert_eq!(
        ConfirmationPacket::from_raw(vec![0x07, 0x00]),
        Ok(ConfirmationPacket { confirm_id: 7 })
    );
    assert_eq!(
        ConfirmationPacket::from_raw(vec![0x34, 0x12]),
        Ok(ConfirmationPacket { confirm_id: 0x1234 })
    );
    assert_eq!(ConfirmationPacket { confirm_id: 0x1234 }.to_raw(), Ok(vec![0x34, 0x12]));
    assert_eq!(ConfirmationPacket::from_raw(vec![]), Err(size(2, 0)));
    assert_eq!(ConfirmationPacket::from_raw(vec![1]), Err(size(2, 1)));
    assert_eq!(ConfirmationPacket::from_raw(vec![1, 2, 3]), Err(size(2, 3)));
}

#[test]
fn version_is_four_bytes() {
    let p = VersionPacket { confirm_id: 0x0102, client_version: 0x0304 };
    assert_eq!(p.to_raw(), Ok(vec![2, 1, 4, 3]));
    assert_eq!(VersionPacket::from_raw(vec![2, 1, 4, 3]), Ok(p));
    assert_eq!(VersionPacket::from_raw(vec![2, 1, 4]), Err(size(4, 3)));
    assert_eq!(VersionPacket::from_raw(vec![2, 1, 4, 3, 0]), Err(size(4, 5)));
}

#[test]
fn authentication_is_an_id_and_a_code() {
    let p = AuthenticationPacket { confirm_id: 5, auth_code: "key".to_string() };
    assert_eq!(p.to_raw(), Ok(vec![5, 0, b'k', b'e', b'y']));
    assert_eq!(AuthenticationPacket::from_raw(vec![5, 0, b'k', b'e', b'y']), Ok(p));
    assert_eq!(
        AuthenticationPacket::from_raw(vec![5, 0, 0xe9]),
        Ok(AuthenticationPacket { confirm_id: 5, auth_code: "\u{e9}".to_string() })
    );
    assert_eq!(
        AuthenticationPacket { confirm_id: 5, auth_code: "\u{e9}".to_string() }.to_raw(),
        Ok(vec![5, 0, 0xe9])
    );
}

#[test]
fn authentication_needs_a_code() {
    assert_eq!(AuthenticationPacket::from_raw(vec![5, 0]), Err(size(3, 2)));
    assert_eq!(AuthenticationPacket::from_raw(vec![]), Err(size(3, 0)));
    assert_eq!(
        AuthenticationPacket { confirm_id: 5, auth_code: String::new() }.to_raw(),
        Ok(vec![5, 0])
    );
}

#[test]
fn authentication_writes_the_low_byte_of_a_wide_character() {
    let p = AuthenticationPacket { confirm_id: 0, auth_code: "\u{100}".to_string() };
    assert_eq!(p.to_raw(), Ok(vec![0, 0, 0]));
    assert_eq!(
        AuthenticationPacket::from_raw(vec![0, 0, 0]),
        Ok(AuthenticationPacket { confirm_id: 0, auth_code: "\0".to_string() })
    );
}

#[test]
fn server_info_is_two_ports() {
    let p = ServerInfoPacket { http_port: 8080, udp_port: 30814 };
    assert_eq!(p.to_raw(), Ok(vec![0x90, 0x1f, 0x5e, 0x78]));
    assert_eq!(ServerInfoPacket::from_raw(vec![0x90, 0x1f, 0x5e, 0x78]), Ok(p));
    assert_eq!(ServerInfoPacket::from_raw(vec![0x90, 0x1f]), Err(size(4, 2)));
}

#[test]
fn load_map_is_an_id_and_a_utf8_name() {
    let p = LoadMapPacket { confirm_id: 3, map_name: "/levels/gridmap/info.json".to_string() };
    let mut raw = vec![3, 0];
    raw.extend(b"/levels/gridmap/info.json");
    assert_eq!(p.to_raw(), Ok(raw.clone()));
    assert_eq!(LoadMapPacket::from_raw(raw), Ok(p));
    assert_eq!(
        LoadMapPacket::from_raw(vec![3, 0]),
        Ok(LoadMapPacket { confirm_id: 3, map_name: String::new() })
    );
}

#[test]
fn load_map_name_beyond_ascii_survives() {
    let p = LoadMapPacket { confirm_id: 1, map_name: "caf\u{e9} \u{4e16}".to_string() };
    let raw = p.to_raw().unwrap();
    assert_eq!(raw, vec![1, 0, b'c', b'a', b'f', 0xc3, 0xa9, b' ', 0xe4, 0xb8, 0x96]);
    assert_eq!(LoadMapPacket::from_raw(raw), Ok(p));
}

#[test]
fn load_map_rejects_short_and_invalid_payloads() {
    assert_eq!(LoadMapPacket::from_raw(vec![3]), Err(size(2, 1)));
    assert_eq!(LoadMapPacket::from_raw(vec![]), Err(size(2, 0)));
    assert_eq!(LoadMapPacket::from_raw(vec![3, 0, 0xff]), Err(PacketDecodeError::InvalidString));
    assert_eq!(LoadMapPacket::from_raw(vec![3, 0, 0xc3]), Err(PacketDecodeError::InvalidString));
}

#[test]
fn vehicle_confirm_is_eight_bytes() {
    let p = VehicleConfirmPacket { confirm_id: 1, vehicle_id: 2, obj_id: 0x0a0b_0c0d };
    assert_eq!(p.to_raw(), Ok(vec![1, 0, 2, 0, 0x0d, 0x0c, 0x0b, 0x0a]));
    assert_eq!(VehicleConfirmPacket::from_raw(vec![1, 0, 2, 0, 0x0d, 0x0c, 0x0b, 0x0a]), Ok(p));
    assert_eq!(
        VehicleConfirmPacket::from_raw(vec![1, 0, 2, 0, 0x0d, 0x0c, 0x0b]),
        Err(PacketDecodeError::UnexpectedEof)
    );
    assert_eq!(VehicleConfirmPacket::from_raw(vec![]), Err(PacketDecodeError::UnexpectedEof));
    assert_eq!(VehicleConfirmPacket::from_raw(vec![0; 9]), Err(size(8, 9)));
}

#[test]
fn vehicle_delete_is_ten_bytes() {
    let p = VehicleDeletePacket { player_id: 0x0102_0304_0506_0708, vehicle_id: 0x090a };
    assert_eq!(p.to_raw(), Ok(vec![8, 7, 6, 5, 4, 3, 2, 1, 0x0a, 0x09]));
    assert_eq!(VehicleDeletePacket::from_raw(vec![8, 7, 6, 5, 4, 3, 2, 1, 0x0a, 0x09]), Ok(p));
    assert_eq!(VehicleDeletePacket::from_raw(vec![0; 9]), Err(PacketDecodeError::UnexpectedEof));
    assert_eq!(VehicleDeletePacket::from_raw(vec![0; 11]), Err(size(10, 11)));
}

#[test]
fn vehicle_transform_is_ids_and_text() {
    let p = VehicleTransformPacket {
        player_id: 76561198000000000,
        vehicle_id: 2,
        transform: "{\"pos\":[1,2,3]}".to_string(),
    };
    let mut raw = 76561198000000000u64.to_le_bytes().to_vec();
    raw.extend([2, 0]);
    raw.extend(b"{\"pos\":[1,2,3]}");
    assert_eq!(p.to_raw(), Ok(raw.clone()));
    assert_eq!(VehicleTransformPacket::from_raw(raw), Ok(p));
    assert_eq!(
        VehicleTransformPacket::from_raw(vec![0; 10]),
        Ok(VehicleTransformPacket { player_id: 0, vehicle_id: 0, transform: String::new() })
    );
    assert_eq!(
        VehicleTransformPacket::from_raw(vec![0; 9]),
        Err(PacketDecodeError::UnexpectedEof)
    );
    let mut bad = vec![0; 10];
    bad.push(0x80);
    assert_eq!(VehicleTransformPacket::from_raw(bad), Err(PacketDecodeError::InvalidString));
}

#[test]
fn vehicle_update_is_ids_time_and_text() {
    let p = VehicleUpdatePacket {
        player_id: 1,
        vehicle_id: 0x0203,
        ms: 0x0405_0607,
        runtime_data: "gear=\u{e9}".to_string(),
    };
    let mut raw = vec![1, 0, 0, 0, 0, 0, 0, 0, 3, 2, 7, 6, 5, 4];
    raw.extend("gear=\u{e9}".as_bytes());
    assert_eq!(p.to_raw(), Ok(raw.clone()));
    assert_eq!(VehicleUpdatePacket::from_raw(raw), Ok(p));
    assert_eq!(VehicleUpdatePacket::from_raw(vec![0; 14]), Ok(VehicleUpdatePacket::default()));
    assert_eq!(VehicleUpdatePacket::from_raw(vec![0; 13]), Err(PacketDecodeError::UnexpectedEof));
    let mut bad = vec![0; 14];
    bad.extend([b'a', 0xff]);
    assert_eq!(VehicleUpdatePacket::from_raw(bad), Err(PacketDecodeError::InvalidString));
}

#[test]
fn catalogue_dispatches_on_the_signature() {
    assert_eq!(
        Packet::from_raw('C', 'C', vec![7, 0]),
        Ok(Packet::Confirmation(ConfirmationPacket { confirm_id: 7 }))
    );
    assert_eq!(
        Packet::from_raw('V', 'C', vec![1, 0, 2, 0]),
        Ok(Packet::Version(VersionPacket { confirm_id: 1, client_version: 2 }))
    );
    assert_eq!(
        Packet::from_raw('A', 'C', vec![1, 0, b'x']),
        Ok(Packet::Authentication(AuthenticationPacket {
            confirm_id: 1,
            auth_code: "x".to_string()
        }))
    );
    assert_eq!(
        Packet::from_raw('H', 'I', vec![1, 0, 2, 0]),
        Ok(Packet::ServerInfo(ServerInfoPacket { http_port: 1, udp_port: 2 }))
    );
    assert_eq!(
        Packet::from_raw('L', 'M', vec![1, 0, b'm']),
        Ok(Packet::LoadMap(LoadMapPacket { confirm_id: 1, map_name: "m".to_string() }))
    );
    assert_eq!(
        Packet::from_raw('P', 'L', b"{\"players\":[]}".to_vec()),
        Ok(Packet::PlayerData("{\"players\":[]}".to_string()))
    );
    assert_eq!(Packet::from_raw('V', 'S', b"{}".to_vec()), Ok(Packet::VehicleSpawn("{}".to_string())));
    assert_eq!(
        Packet::from_raw('V', 'A', vec![1, 0, 2, 0, 3, 0, 0, 0]),
        Ok(Packet::VehicleConfirm(VehicleConfirmPacket { confirm_id: 1, vehicle_id: 2, obj_id: 3 }))
    );
    assert_eq!(
        Packet::from_raw('V', 'D', vec![1, 0, 0, 0, 0, 0, 0, 0, 2, 0]),
        Ok(Packet::VehicleDelete(VehicleDeletePacket { player_id: 1, vehicle_id: 2 }))
    );
    assert_eq!(
        Packet::from_raw('V', 'T', vec![1, 0, 0, 0, 0, 0, 0, 0, 2, 0, b't']),
        Ok(Packet::VehicleTransform(VehicleTransformPacket {
            player_id: 1,
            vehicle_id: 2,
            transform: "t".to_string()
        }))
    );
    assert_eq!(
        Packet::from_raw('V', 'U', vec![1, 0, 0, 0, 0, 0, 0, 0, 2, 0, 3, 0, 0, 0, b'u']),
        Ok(Packet::VehicleUpdate(VehicleUpdatePacket {
            player_id: 1,
            vehicle_id: 2,
            ms: 3,
            runtime_data: "u".to_string()
        }))
    );
}

#[test]
fn catalogue_rejects_unknown_signatures() {
    assert_eq!(Packet::from_raw('Z', 'Z', vec![]), Err(PacketDecodeError::UnknownPacket('Z', 'Z')));
    assert_eq!(Packet::from_raw('c', 'c', vec![7, 0]), Err(PacketDecodeError::UnknownPacket('c', 'c')));
    assert_eq!(Packet::from_raw('C', 'V', vec![7, 0]), Err(PacketDecodeError::UnknownPacket('C', 'V')));
    assert_eq!(Packet::from_raw('P', 'D', vec![]), Err(PacketDecodeError::UnknownPacket('P', 'D')));
}

#[test]
fn catalogue_passes_on_the_error_of_the_payload() {
    assert_eq!(Packet::from_raw('C', 'C', vec![7]), Err(size(2, 1)));
    assert_eq!(Packet::from_raw('V', 'A', vec![7]), Err(PacketDecodeError::UnexpectedEof));
    assert_eq!(Packet::from_raw('P', 'L', vec![0xff]), Err(PacketDecodeError::InvalidString));
    assert_eq!(Packet::from_raw('V', 'S', vec![0xc0, 0x80]), Err(PacketDecodeError::InvalidString));
}

fn samples() -> Vec<Packet> {
    vec![
        Packet::Confirmation(ConfirmationPacket { confirm_id: 7 }),
        Packet::Version(VersionPacket { confirm_id: 65535, client_version: 0 }),
        Packet::Authentication(AuthenticationPacket { confirm_id: 9, auth_code: "k\u{ff}".to_string() }),
        Packet::ServerInfo(ServerInfoPacket { http_port: 80, udp_port: 443 }),
        Packet::LoadMap(LoadMapPacket { confirm_id: 2, map_name: "\u{1f697}".to_string() }),
        Packet::PlayerData("{\"players\":[{\"name\":\"\u{e9}\"}]}".to_string()),
        Packet::VehicleSpawn(String::new()),
        Packet::VehicleConfirm(VehicleConfirmPacket { confirm_id: 1, vehicle_id: 2, obj_id: u32::MAX }),
        Packet::VehicleDelete(VehicleDeletePacket { player_id: u64::MAX, vehicle_id: 2 }),
        Packet::VehicleTransform(VehicleTransformPacket {
            player_id: 5,
            vehicle_id: 6,
            transform: "[0,0,0]".to_string(),
        }),
        Packet::VehicleUpdate(VehicleUpdatePacket {
            player_id: 5,
            vehicle_id: 6,
            ms: 7,
            runtime_data: "\u{4e16}\u{754c}".to_string(),
        }),
    ]
}

#[test]
fn catalogue_signatures() {
    let signatures: Vec<(char, char)> =
        samples().iter().map(|p| p.to_raw().map(|(a, b, _)| (a, b)).unwrap()).collect();
    assert_eq!(
        signatures,
        vec![
            ('C', 'C'),
            ('V', 'C'),
            ('A', 'C'),
            ('H', 'I'),
            ('L', 'M'),
            ('P', 'L'),
            ('V', 'S'),
            ('V', 'A'),
            ('V', 'D'),
            ('V', 'T'),
            ('V', 'U'),
        ]
    );
}

#[test]
fn every_variant_survives_encoding_and_decoding() {
    for p in samples() {
        let (a, b, raw) = p.to_raw().unwrap();
        assert_eq!(Packet::from_raw(a, b, raw), Ok(p));
    }
}

#[test]
fn every_payload_that_decodes_is_encoded_to_itself() {
    let payloads: Vec<(char, char, Vec<u8>)> = vec![
        ('C', 'C', vec![1, 2]),
        ('A', 'C', vec![1, 2, 0x80, 0xff]),
        ('L', 'M', vec![1, 2, 0xc3, 0xa9]),
        ('P', 'L', b"[]".to_vec()),
        ('V', 'U', vec![9; 14]),
    ];
    for (a, b, raw) in payloads {
        let p = Packet::from_raw(a, b, raw.clone()).unwrap();
        assert_eq!(p.to_raw(), Ok((a, b, raw)));
    }
}

#[test]
fn player_roster_is_a_plain_value() {
    let roster = PlayerDataPacket {
        players: vec![PlayerData {
            name: "driver".to_string(),
            steam_id: 76561198000000000,
            avatar_hash: "abc".to_string(),
        }],
    };
    assert_eq!(roster.players.len(), 1);
    assert_eq!(roster.clone(), roster);
}
