use packet_relay::connection::{read_bytes, Awaited, TcpConnection};
use packet_relay::server_launcher::generic::ConfirmationPacket;
use packet_relay::server_launcher::gameplay::VehicleUpdatePacket;
use packet_relay::server_launcher::handshake::VersionPacket;
use packet_relay::server_launcher::Packet;
use packet_relay::{ConnectionError, PacketDecodeError, PacketEncodeError, PacketHeader, TransportError};

fn confirmation(confirm_id: u16) -> Packet {
    Packet::Confirmation(ConfirmationPacket { confirm_id })
}

fn update(text: &str) -> Packet {
    Packet::VehicleUpdate(VehicleUpdatePacket {
        player_id: 0x0102_0304_0506_0708,
        vehicle_id: 3,
        ms: 1000,
        runtime_data: text.to_string(),
    })
}

fn stream_of(packets: &[Packet]) -> Vec<u8> {
    let conn: TcpConnection<Packet> = TcpConnection::new(1 << 16);
    let mut bytes = Vec::new();
    for p in packets {
        bytes.extend(conn.write_packet(p).unwrap());
    }
    bytes
}

fn drain(conn: &mut TcpConnection<Packet>, into: &mut Vec<Result<Packet, TransportError>>) {
    loop {
        match conn.try_read_packet() {
            Ok(None) => break,
            Ok(Some(p)) => into.push(Ok(p)),
            Err(e) => {
                let stuck = matches!(e, TransportError::Connection(_));
                into.push(Err(e));
                if stuck {
                    break;
                }
            }
        }
    }
}

#[test]
fn confirmation_example_encodes_to_eight_bytes() {
    let conn: TcpConnection<Packet> = TcpConnection::new(1024);
    assert_eq!(
        conn.write_packet(&confirmation(7)),
        Ok(vec![0x43, 0x43, 0x02, 0x00, 0x00, 0x00, 0x07, 0x00])
    );
}

#[test]
fn confirmation_example_decodes_and_empties_the_buffer() {
    let mut conn: TcpConnection<Packet> = TcpConnection::new(1024);
    assert_eq!(conn.read_to_buf(&[0x43, 0x43, 0x02, 0x00, 0x00, 0x00, 0x07, 0x00]), 8);
    assert_eq!(conn.try_read_packet(), Ok(Some(confirmation(7))));
    assert_eq!(conn.buffer(), &[] as &[u8]);
    assert_eq!(conn.try_read_packet(), Ok(None));
}

#[test]
fn new_connection_is_empty() {
    let mut conn: TcpConnection<Packet> = TcpConnection::new(10);
    assert!(conn.buffer().is_empty());
    assert_eq!(conn.read_packet_header(), None);
    assert_eq!(conn.try_read_packet(), Ok(None));
    assert_eq!(conn.wait_for_packet(), Ok(Awaited::Read(6)));
}

#[test]
fn read_to_buf_appends_and_counts() {
    let mut conn: TcpConnection<Packet> = TcpConnection::new(10);
    assert_eq!(conn.read_to_buf(&[1, 2, 3]), 3);
    assert_eq!(conn.read_to_buf(&[]), 0);
    assert_eq!(conn.read_to_buf(&[4]), 1);
    assert_eq!(conn.buffer(), &[1, 2, 3, 4]);
}

#[test]
fn read_bytes_takes_the_front() {
    let mut buf = vec![1u8, 2, 3, 4, 5];
    assert_eq!(read_bytes(&mut buf, 2), vec![1, 2]);
    assert_eq!(buf, vec![3, 4, 5]);
    assert_eq!(read_bytes(&mut buf, 0), Vec::<u8>::new());
    assert_eq!(read_bytes(&mut buf, 3), vec![3, 4, 5]);
    assert!(buf.is_empty());
}

#[test]
fn header_is_peeked_without_consuming() {
    let mut conn: TcpConnection<Packet> = TcpConnection::new(10);
    conn.read_to_buf(&[0x43, 0x43, 2, 0, 0, 0, 7]);
    assert_eq!(
        conn.read_packet_header(),
        Some(PacketHeader { sig_a: 'C', sig_b: 'C', packet_length: 2 })
    );
    assert_eq!(conn.buffer(), &[0x43, 0x43, 2, 0, 0, 0, 7]);
}

#[test]
fn incomplete_frame_is_not_consumed() {
    let bytes = stream_of(&[update("throttle")]);
    for cut in 0..bytes.len() {
        let mut conn: TcpConnection<Packet> = TcpConnection::new(1 << 16);
        conn.read_to_buf(&bytes[..cut]);
        assert_eq!(conn.try_read_packet(), Ok(None));
        assert_eq!(conn.try_read_packet(), Ok(None));
        assert_eq!(conn.buffer(), &bytes[..cut]);
        conn.read_to_buf(&bytes[cut..]);
        assert_eq!(conn.try_read_packet(), Ok(Some(update("throttle"))));
        assert_eq!(conn.try_read_packet(), Ok(None));
        assert!(conn.buffer().is_empty());
    }
}

#[test]
fn one_byte_at_a_time_yields_the_same_packets() {
    let packets = vec![
        confirmation(7),
        update("a"),
        Packet::Version(VersionPacket { confirm_id: 1, client_version: 2 }),
        update(""),
        confirmation(0xffff),
    ];
    let bytes = stream_of(&packets);

    let mut whole: TcpConnection<Packet> = TcpConnection::new(1 << 16);
    whole.read_to_buf(&bytes);
    let mut at_once = Vec::new();
    drain(&mut whole, &mut at_once);

    let mut trickle: TcpConnection<Packet> = TcpConnection::new(1 << 16);
    let mut one_by_one = Vec::new();
    for b in &bytes {
        trickle.read_to_buf(&[*b]);
        drain(&mut trickle, &mut one_by_one);
    }

    let expected: Vec<Result<Packet, TransportError>> = packets.into_iter().map(Ok).collect();
    assert_eq!(at_once, expected);
    assert_eq!(one_by_one, expected);
    assert!(whole.buffer().is_empty());
    assert!(trickle.buffer().is_empty());
}

#[test]
fn every_chunk_size_yields_the_same_packets() {
    let packets = vec![update("left"), confirmation(1), update("right"), confirmation(2)];
    let bytes = stream_of(&packets);
    let expected: Vec<Result<Packet, TransportError>> = packets.into_iter().map(Ok).collect();
    for size in 1..=bytes.len() {
        let mut conn: TcpConnection<Packet> = TcpConnection::new(1 << 16);
        let mut got = Vec::new();
        for chunk in bytes.chunks(size) {
            conn.read_to_buf(chunk);
            drain(&mut conn, &mut got);
        }
        assert_eq!(got, expected);
        assert!(conn.buffer().is_empty());
    }
}

#[test]
fn packets_come_out_in_the_order_sent() {
    let mut conn: TcpConnection<Packet> = TcpConnection::new(1 << 16);
    conn.read_to_buf(&stream_of(&[confirmation(1), confirmation(2), confirmation(3)]));
    assert_eq!(conn.try_read_packet(), Ok(Some(confirmation(1))));
    assert_eq!(conn.buffer().len(), 16);
    assert_eq!(conn.try_read_packet(), Ok(Some(confirmation(2))));
    assert_eq!(conn.try_read_packet(), Ok(Some(confirmation(3))));
    assert_eq!(conn.try_read_packet(), Ok(None));
}

#[test]
fn wait_for_packet_says_how_much_to_read() {
    let mut conn: TcpConnection<Packet> = TcpConnection::new(1 << 16);
    assert_eq!(conn.wait_for_packet(), Ok(Awaited::Read(6)));
    conn.read_to_buf(&[0x43, 0x43]);
    assert_eq!(conn.wait_for_packet(), Ok(Awaited::Read(4)));
    conn.read_to_buf(&[2, 0, 0, 0]);
    assert_eq!(conn.wait_for_packet(), Ok(Awaited::Read(2)));
    conn.read_to_buf(&[7]);
    assert_eq!(conn.wait_for_packet(), Ok(Awaited::Read(1)));
    assert_eq!(conn.buffer(), &[0x43, 0x43, 2, 0, 0, 0, 7]);
    conn.read_to_buf(&[0]);
    assert_eq!(conn.wait_for_packet(), Ok(Awaited::Packet(confirmation(7))));
    assert_eq!(conn.wait_for_packet(), Ok(Awaited::Read(6)));
}

#[test]
fn oversize_header_is_a_framing_error_and_nothing_is_consumed() {
    let mut conn: TcpConnection<Packet> = TcpConnection::new(4);
    conn.read_to_buf(&[0x56, 0x55, 5, 0, 0, 0, 1, 2, 3, 4, 5]);
    let refused = Err(TransportError::Connection(ConnectionError::InvalidPacketSize));
    assert_eq!(conn.try_read_packet(), refused);
    assert_eq!(conn.wait_for_packet().map(|_| ()), Err(TransportError::Connection(ConnectionError::InvalidPacketSize)));
    assert_eq!(conn.buffer(), &[0x56, 0x55, 5, 0, 0, 0, 1, 2, 3, 4, 5]);
    conn.read_to_buf(&[6]);
    assert_eq!(conn.try_read_packet(), refused);
}

#[test]
fn payload_at_the_limit_is_accepted() {
    let mut conn: TcpConnection<Packet> = TcpConnection::new(2);
    conn.read_to_buf(&[0x43, 0x43, 2, 0, 0, 0, 9, 0]);
    assert_eq!(conn.try_read_packet(), Ok(Some(confirmation(9))));
}

#[test]
fn decode_error_on_a_stream_removes_the_frame() {
    let mut conn: TcpConnection<Packet> = TcpConnection::new(100);
    conn.read_to_buf(&[0x5a, 0x5a, 1, 0, 0, 0, 9]);
    conn.read_to_buf(&[0x43, 0x43, 2, 0, 0, 0, 7, 0]);
    assert_eq!(
        conn.try_read_packet(),
        Err(TransportError::Decode(PacketDecodeError::UnknownPacket('Z', 'Z')))
    );
    assert_eq!(conn.buffer(), &[0x43, 0x43, 2, 0, 0, 0, 7, 0]);
    assert_eq!(conn.try_read_packet(), Ok(Some(confirmation(7))));
}

#[test]
fn decode_error_names_the_size() {
    let mut conn: TcpConnection<Packet> = TcpConnection::new(100);
    conn.read_to_buf(&[0x43, 0x43, 3, 0, 0, 0, 7, 0, 0]);
    assert_eq!(
        conn.wait_for_packet(),
        Err(TransportError::Decode(PacketDecodeError::InvalidDataSize { expected: 2, actual: 3 }))
    );
    assert!(conn.buffer().is_empty());
}

#[test]
fn write_packet_refuses_a_payload_over_the_limit() {
    let conn: TcpConnection<Packet> = TcpConnection::new(14);
    assert_eq!(
        conn.write_packet(&update("x")),
        Err(TransportError::Connection(ConnectionError::InvalidPacketSize))
    );
    let bytes = conn.write_packet(&update("")).unwrap();
    assert_eq!(bytes.len(), 20);
    assert_eq!(&bytes[..6], &[0x56, 0x55, 14, 0, 0, 0]);
}

#[test]
fn transport_error_holds_each_kind() {
    let errors = [
        TransportError::Connection(ConnectionError::InvalidPacketSize),
        TransportError::Decode(PacketDecodeError::UnexpectedEof),
        TransportError::Encode(PacketEncodeError::CannotSerializeJson),
    ];
    assert_ne!(errors[0], errors[1]);
    assert_ne!(errors[1], errors[2]);
    assert_ne!(errors[0], errors[2]);
}
