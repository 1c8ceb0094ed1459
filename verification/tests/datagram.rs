use packet_relay::connection::{packet_from_buf, Batch, PeerAddr, UdpClient, UdpListener};
use packet_relay::server_launcher::generic::ConfirmationPacket;
use packet_relay::server_launcher::gameplay::VehicleTransformPacket;
use packet_relay::server_launcher::Packet;
use packet_relay::{ConnectionError, PacketDecodeError, TransportError};

fn ack(confirm_id: u16) -> Packet {
    Packet::Confirmation(ConfirmationPacket { confirm_id })
}

fn transform(text: &str) -> Packet {
    Packet::VehicleTransform(VehicleTransformPacket {
        player_id: 42,
        vehicle_id: 1,
        transform: text.to_string(),
    })
}

fn frame(packet: Packet) -> Vec<u8> {
    let client: UdpClient<Packet> = UdpClient::new(1 << 16);
    client.write_packet(packet).unwrap()
}

fn peer(n: u16) -> PeerAddr {
    PeerAddr { ip: 0x7f00_0001, port: n }
}

fn nothing() -> Batch<Packet> {
    Batch { packets: Vec::new(), error: None }
}

#[test]
fn one_datagram_with_two_packets_yields_both_in_order() {
    let mut client: UdpClient<Packet> = UdpClient::new(1 << 16);
    let mut datagram = frame(ack(1));
    datagram.extend(frame(transform("pos")));
    let batch = client.wait_for_packet(&datagram);
    assert_eq!(batch.packets, vec![Ok(ack(1)), Ok(transform("pos"))]);
    assert_eq!(batch.error, None);
    assert!(client.buffer().is_empty());
}

#[test]
fn packet_split_across_two_datagrams_is_reassembled() {
    let bytes = frame(transform("a transform that is long enough to split"));
    for cut in 0..bytes.len() {
        let mut client: UdpClient<Packet> = UdpClient::new(1 << 16);
        assert_eq!(client.wait_for_packet(&bytes[..cut]), nothing());
        assert_eq!(client.buffer(), &bytes[..cut]);
        let batch = client.wait_for_packet(&bytes[cut..]);
        assert_eq!(
            batch.packets,
            vec![Ok(transform("a transform that is long enough to split"))]
        );
        assert_eq!(batch.error, None);
        assert!(client.buffer().is_empty());
    }
}

#[test]
fn unknown_tag_does_not_hide_the_packet_after_it() {
    let mut client: UdpClient<Packet> = UdpClient::new(1 << 16);
    let mut datagram = vec![0x5a, 0x5a, 3, 0, 0, 0, 1, 2, 3];
    datagram.extend(frame(ack(7)));
    let batch = client.wait_for_packet(&datagram);
    assert_eq!(
        batch.packets,
        vec![Err(PacketDecodeError::UnknownPacket('Z', 'Z')), Ok(ack(7))]
    );
    assert_eq!(batch.error, None);
    assert!(client.buffer().is_empty());
}

#[test]
fn malformed_payload_does_not_hide_the_packet_after_it() {
    let mut client: UdpClient<Packet> = UdpClient::new(1 << 16);
    let mut datagram = vec![0x43, 0x43, 1, 0, 0, 0, 9];
    datagram.extend(frame(ack(7)));
    datagram.extend(vec![0x56, 0x54, 11, 0, 0, 0, 1, 0, 0, 0, 0, 0, 0, 0, 2, 0, 0xff]);
    datagram.extend(frame(ack(8)));
    let batch = client.wait_for_packet(&datagram);
    assert_eq!(
        batch.packets,
        vec![
            Err(PacketDecodeError::InvalidDataSize { expected: 2, actual: 1 }),
            Ok(ack(7)),
            Err(PacketDecodeError::InvalidString),
            Ok(ack(8)),
        ]
    );
}

#[test]
fn datagram_with_a_packet_and_a_half_keeps_the_half() {
    let mut client: UdpClient<Packet> = UdpClient::new(1 << 16);
    let second = frame(transform("tail"));
    let mut datagram = frame(ack(1));
    datagram.extend(&second[..9]);
    let batch = client.wait_for_packet(&datagram);
    assert_eq!(batch.packets, vec![Ok(ack(1))]);
    assert_eq!(client.buffer(), &second[..9]);
    let batch = client.wait_for_packet(&second[9..]);
    assert_eq!(batch.packets, vec![Ok(transform("tail"))]);
    assert!(client.buffer().is_empty());
}

#[test]
fn empty_datagram_yields_nothing() {
    let mut client: UdpClient<Packet> = UdpClient::new(16);
    assert_eq!(client.wait_for_packet(&[]), nothing());
    assert!(client.buffer().is_empty());
}

#[test]
fn oversize_header_is_reported_and_the_bytes_are_discarded() {
    let mut client: UdpClient<Packet> = UdpClient::new(4);
    let mut datagram = vec![0x43, 0x43, 2, 0, 0, 0, 5, 0];
    datagram.extend(vec![0x56, 0x54, 5, 0, 0, 0, 1, 2, 3]);
    let batch = client.wait_for_packet(&datagram);
    assert_eq!(batch.packets, vec![Ok(ack(5))]);
    assert_eq!(batch.error, Some(ConnectionError::InvalidPacketSize));
    assert!(client.buffer().is_empty());
    let batch = client.wait_for_packet(&[0x43, 0x43, 2, 0, 0, 0, 6, 0]);
    assert_eq!(batch.packets, vec![Ok(ack(6))]);
    assert_eq!(batch.error, None);
}

#[test]
fn client_without_a_datagram_yields_nothing_and_keeps_its_bytes() {
    let mut client: UdpClient<Packet> = UdpClient::new(1 << 16);
    assert_eq!(client.try_read_packet(None), nothing());
    client.wait_for_packet(&[0x43, 0x43, 2]);
    assert_eq!(client.try_read_packet(None), nothing());
    assert_eq!(client.buffer(), &[0x43, 0x43, 2]);
    let batch = client.try_read_packet(Some(&[0, 0, 0, 7, 0]));
    assert_eq!(batch.packets, vec![Ok(ack(7))]);
    assert!(client.buffer().is_empty());
}

#[test]
fn packet_from_buf_takes_out_every_complete_frame() {
    let mut buf = frame(ack(1));
    buf.extend(frame(ack(2)));
    buf.extend(vec![0x43, 0x43, 2, 0]);
    let batch: Batch<Packet> = packet_from_buf(&mut buf, 100);
    assert_eq!(batch.packets, vec![Ok(ack(1)), Ok(ack(2))]);
    assert_eq!(batch.error, None);
    assert_eq!(buf, vec![0x43, 0x43, 2, 0]);
    let batch: Batch<Packet> = packet_from_buf(&mut buf, 100);
    assert_eq!(batch, nothing());
    assert_eq!(buf, vec![0x43, 0x43, 2, 0]);
}

#[test]
fn client_write_packet_frames_the_packet() {
    let client: UdpClient<Packet> = UdpClient::new(8);
    assert_eq!(
        client.write_packet(ack(0x0102)),
        Ok(vec![0x43, 0x43, 2, 0, 0, 0, 2, 1])
    );
    assert_eq!(
        client.write_packet(transform("")),
        Err(TransportError::Connection(ConnectionError::InvalidPacketSize))
    );
}

#[test]
fn listener_write_packet_frames_the_packet() {
    let listener: UdpListener<Packet> = UdpListener::new(10);
    assert_eq!(
        listener.write_packet(transform("")),
        Ok(vec![0x56, 0x54, 10, 0, 0, 0, 42, 0, 0, 0, 0, 0, 0, 0, 1, 0])
    );
    assert_eq!(
        listener.write_packet(transform("x")),
        Err(TransportError::Connection(ConnectionError::InvalidPacketSize))
    );
}

#[test]
fn listener_yields_the_packets_of_one_datagram() {
    let mut listener: UdpListener<Packet> = UdpListener::new(1 << 16);
    let mut datagram = frame(ack(1));
    datagram.extend(frame(ack(2)));
    let (batch, sender) = listener.wait_for_packet(peer(1), &datagram);
    assert_eq!(batch.packets, vec![Ok(ack(1)), Ok(ack(2))]);
    assert_eq!(batch.error, None);
    assert_eq!(sender, peer(1));
    assert_eq!(listener.buffered(peer(1)), 0);
}

#[test]
fn listener_keeps_the_bytes_of_each_peer_apart() {
    let mut listener: UdpListener<Packet> = UdpListener::new(1 << 16);
    let first = frame(transform("from the first peer"));
    let second = frame(ack(9));
    assert_eq!(listener.wait_for_packet(peer(1), &first[..10]), (nothing(), peer(1)));
    assert_eq!(listener.wait_for_packet(peer(2), &second[..3]), (nothing(), peer(2)));
    assert_eq!(listener.buffered(peer(1)), 10);
    assert_eq!(listener.buffered(peer(2)), 3);
    assert_eq!(listener.buffered(peer(3)), 0);
    let (batch, sender) = listener.wait_for_packet(peer(3), &frame(ack(3)));
    assert_eq!(batch.packets, vec![Ok(ack(3))]);
    assert_eq!(sender, peer(3));
    let (batch, sender) = listener.wait_for_packet(peer(2), &second[3..]);
    assert_eq!(batch.packets, vec![Ok(ack(9))]);
    assert_eq!(sender, peer(2));
    assert_eq!(listener.buffered(peer(1)), 10);
    assert_eq!(listener.buffered(peer(2)), 0);
    let (batch, sender) = listener.wait_for_packet(peer(1), &first[10..]);
    assert_eq!(batch.packets, vec![Ok(transform("from the first peer"))]);
    assert_eq!(sender, peer(1));
    assert_eq!(listener.buffered(peer(1)), 0);
}

#[test]
fn listener_tells_peers_apart_by_address_and_port() {
    let mut listener: UdpListener<Packet> = UdpListener::new(1 << 16);
    let a = PeerAddr { ip: 1, port: 5 };
    let b = PeerAddr { ip: 2, port: 5 };
    let c = PeerAddr { ip: 1, port: 6 };
    listener.wait_for_packet(a, &[0x43]);
    listener.wait_for_packet(b, &[0x43, 0x43]);
    listener.wait_for_packet(c, &[0x43, 0x43, 2]);
    assert_eq!(listener.buffered(a), 1);
    assert_eq!(listener.buffered(b), 2);
    assert_eq!(listener.buffered(c), 3);
    listener.wait_for_packet(a, &[0x43]);
    assert_eq!(listener.buffered(a), 2);
    assert_eq!(listener.buffered(b), 2);
}

#[test]
fn listener_discards_only_the_oversize_peer() {
    let mut listener: UdpListener<Packet> = UdpListener::new(4);
    listener.wait_for_packet(peer(1), &[0x43, 0x43, 2, 0]);
    let (batch, _) = listener.wait_for_packet(peer(2), &[0x43, 0x43, 9, 0, 0, 0, 1]);
    assert_eq!(batch.packets, vec![]);
    assert_eq!(batch.error, Some(ConnectionError::InvalidPacketSize));
    assert_eq!(listener.buffered(peer(2)), 0);
    assert_eq!(listener.buffered(peer(1)), 4);
    let (batch, _) = listener.wait_for_packet(peer(1), &[0, 0, 4, 0]);
    assert_eq!(batch.packets, vec![Ok(ack(4))]);
}

#[test]
fn listener_without_a_datagram_yields_nothing() {
    let mut listener: UdpListener<Packet> = UdpListener::new(1 << 16);
    listener.wait_for_packet(peer(1), &[0x43, 0x43]);
    assert_eq!(listener.try_read_packet(None), None);
    assert_eq!(listener.buffered(peer(1)), 2);
    let (batch, sender) = listener.try_read_packet(Some((peer(1), &[2, 0, 0, 0, 1, 0]))).unwrap();
    assert_eq!(batch.packets, vec![Ok(ack(1))]);
    assert_eq!(sender, peer(1));
    assert_eq!(listener.buffered(peer(1)), 0);
}

#[test]
fn listener_reassembles_a_split_packet_of_one_peer_around_another() {
    let mut listener: UdpListener<Packet> = UdpListener::new(1 << 16);
    let bytes = frame(transform("interleaved"));
    listener.wait_for_packet(peer(1), &bytes[..7]);
    let (batch, _) = listener.wait_for_packet(peer(2), &bytes);
    assert_eq!(batch.packets, vec![Ok(transform("interleaved"))]);
    let (batch, _) = listener.wait_for_packet(peer(1), &bytes[7..]);
    assert_eq!(batch.packets, vec![Ok(transform("interleaved"))]);
}
