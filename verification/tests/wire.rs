use udp_over_tcp::bytes_le::{u32_from_le, u32_to_le};
use udp_over_tcp::frame::{frame_header, whole_frame};
use udp_over_tcp::{Ipv4Addr, Ipv6Addr, Malformed, SocketAddr, UdpPacketWrapper};

fn v4(octets: [u8; 4], port: u16) -> SocketAddr {
    SocketAddr::V4 { ip: Ipv4Addr { octets }, port }
}

fn v6(last: u8, port: u16, flowinfo: u32, scope_id: u32) -> SocketAddr {
    let mut octets = [0u8; 16];
    octets[0] = 0xfe;
    octets[15] = last;
    SocketAddr::V6 { ip: Ipv6Addr { octets }, port, flowinfo, scope_id }
}

fn packet(data: Vec<u8>, source_addr: SocketAddr, target_port: u16) -> UdpPacketWrapper {
    UdpPacketWrapper { data, source_addr, target_port }
}

#[test]
fn little_endian_numbers() {
    assert_eq!(u32_to_le(0x0403_0201), vec![1, 2, 3, 4]);
    assert_eq!(u32_to_le(u32::MAX), vec![255, 255, 255, 255]);
    assert_eq!(u32_from_le(&[9, 1, 2, 3, 4, 9], 1), 0x0403_0201);
    assert_eq!(u32_from_le(&[255, 255, 255, 255], 0), u32::MAX);
}

#[test]
fn ipv4_packet_has_these_bytes() {
    let p = packet(vec![7, 8, 9], v4([10, 0, 0, 1], 5000), 53);
    assert_eq!(p.encode(), vec![3, 7, 8, 9, 0, 10, 0, 0, 1, 251, 0x88, 0x13, 53]);
}

#[test]
fn ipv6_packet_has_these_bytes() {
    let p = packet(vec![], v6(1, 250, 0, 0), 251);
    assert_eq!(
        p.encode(),
        vec![0, 1, 0xfe, 0, 0, 0, 0, 0, 0, 0, 0, 0, 0, 0, 0, 0, 0, 1, 250, 251, 251, 0]
    );
}

#[test]
fn packet_bytes_are_those_of_nested_tuples() {
    let data: Vec<u8> = (0..300).map(|i| (i % 256) as u8).collect();
    let p = packet(data.clone(), v4([1, 2, 3, 4], 65535), 1024);
    let nested = bincode::encode_to_vec(
        (data, (0u32, ([1u8, 2, 3, 4], 65535u16)), 1024u16),
        bincode::config::standard(),
    );
    assert_eq!(p.encode(), nested.unwrap());
}

#[test]
fn long_data_has_a_marked_length() {
    let p = packet(vec![0; 300], v4([1, 2, 3, 4], 1), 2);
    let bytes = p.encode();
    assert_eq!(bytes[..3], [251, 0x2c, 1]);
    assert_eq!(bytes.len(), 300 + 3 + 1 + 4 + 1 + 1);
    let p = packet(vec![0; 65536], v4([1, 2, 3, 4], 1), 2);
    assert_eq!(p.encode()[..5], [252, 0, 0, 1, 0]);
}

#[test]
fn packets_are_read_back() {
    for len in [0usize, 1, 250, 251, 1472, 65535] {
        for source in [v4([192, 168, 1, 2], 40000), v6(7, 9, 0, 0)] {
            let data: Vec<u8> = (0..len).map(|i| (i * 31 % 251) as u8).collect();
            let p = packet(data, source, 65535);
            let mut bytes = p.encode();
            assert_eq!(UdpPacketWrapper::decode(&bytes), Ok(packet(p.data.clone(), source, 65535)));
            // What follows the packet is left alone.
            bytes.extend_from_slice(&[1, 2, 3]);
            assert_eq!(UdpPacketWrapper::decode(&bytes), Ok(p));
        }
    }
}

#[test]
fn flow_and_scope_stay_behind() {
    let p = packet(vec![1], v6(7, 9, 3, 4), 5);
    assert_eq!(
        UdpPacketWrapper::decode(&p.encode()),
        Ok(packet(vec![1], v6(7, 9, 0, 0), 5))
    );
}

#[test]
fn integers_may_be_wider_than_they_need_be() {
    let bytes = [251, 1, 0, 42, 252, 0, 0, 0, 0, 1, 2, 3, 4, 251, 80, 0, 53];
    assert_eq!(
        UdpPacketWrapper::decode(&bytes),
        Ok(packet(vec![42], v4([1, 2, 3, 4], 80), 53))
    );
}

#[test]
fn malformed_bytes_are_refused() {
    let good = packet(vec![7, 8], v4([1, 2, 3, 4], 5000), 6000).encode();
    for len in 0..good.len() {
        assert_eq!(UdpPacketWrapper::decode(&good[..len]), Err(Malformed));
    }
    // an address family that there is not
    assert_eq!(
        UdpPacketWrapper::decode(&[0, 2, 1, 2, 3, 4, 80, 53, 0, 0, 0, 0, 0, 0, 0, 0, 0, 0, 0, 0]),
        Err(Malformed)
    );
    // a port of four bytes
    assert_eq!(
        UdpPacketWrapper::decode(&[0, 0, 1, 2, 3, 4, 252, 0, 0, 0, 0, 53]),
        Err(Malformed)
    );
    // more data than there can be
    assert_eq!(
        UdpPacketWrapper::decode(&[253, 255, 255, 255, 255, 255, 255, 255, 255, 0, 1, 2, 3, 4, 5, 6]),
        Err(Malformed)
    );
}

#[test]
fn header_is_the_length() {
    assert_eq!(frame_header(&[]), vec![0, 0, 0, 0]);
    assert_eq!(frame_header(&[0; 513]), vec![1, 2, 0, 0]);
}

#[test]
fn frames_are_found_once_whole() {
    let mut stream = vec![99u8];
    let message = vec![5u8, 6, 7];
    stream.extend_from_slice(&frame_header(&message));
    stream.extend_from_slice(&message);
    for len in 1..stream.len() {
        assert_eq!(whole_frame(&stream[..len], 1), None);
    }
    assert_eq!(whole_frame(&stream, 1), Some(3));
    stream.push(1);
    assert_eq!(whole_frame(&stream, 1), Some(3));
    assert_eq!(whole_frame(&[0, 0, 0, 0], 0), Some(0));
    assert_eq!(whole_frame(&[255, 255, 255, 255, 1], 0), None);
}
