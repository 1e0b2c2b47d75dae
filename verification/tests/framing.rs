use bytes::Bytes;
use game_net::framing::{frames_fit, parse_packets_stream_sync, prepare_data, unpack_payload};

/// The RFC 1071 checksum computed directly, as a reference for the tests.
fn reference_checksum(data: &[u8]) -> [u8; 2] {
    let mut sum: u64 = 0;
    let mut i = 0;
    while i < data.len() {
        let hi = data[i] as u64;
        let lo = if i + 1 < data.len() { data[i + 1] as u64 } else { 0 };
        sum += hi * 256 + lo;
        i += 2;
    }
    while sum > 0xFFFF {
        sum = (sum & 0xFFFF) + (sum >> 16);
    }
    let v = !(sum as u16);
    v.to_be_bytes()
}

#[test]
fn prepare_data_rfc1071_example() {
    let data = Bytes::from(vec![0x00u8, 0x01, 0xf2, 0x03, 0xf4, 0xf5, 0xf6, 0xf7]);
    let framed = prepare_data(&data);
    assert_eq!(
        framed.as_ref(),
        &[0, 0, 0, 10, 0x00, 0x01, 0xf2, 0x03, 0xf4, 0xf5, 0xf6, 0xf7, 0x22, 0x0d][..]
    );
}

#[test]
fn prepare_data_odd_length_and_zeros() {
    let framed = prepare_data(&Bytes::from(vec![0u8; 5]));
    assert_eq!(framed.as_ref(), &[0, 0, 0, 7, 0, 0, 0, 0, 0, 0xff, 0xff][..]);
    let framed = prepare_data(&Bytes::from(vec![0x12u8, 0x34, 0x56]));
    let expected = reference_checksum(&[0x12, 0x34, 0x56]);
    assert_eq!(expected, [0x97, 0xcb]);
    assert_eq!(&framed.as_ref()[7..], &expected[..]);
}

#[test]
fn prepare_data_long_payload_matches_reference() {
    let data: Vec<u8> = (0..300u32).map(|i| (i * 37 % 251) as u8).collect();
    let framed = prepare_data(&Bytes::from(data.clone()));
    assert_eq!(&framed.as_ref()[0..4], &302u32.to_be_bytes()[..]);
    assert_eq!(&framed.as_ref()[4..304], &data[..]);
    assert_eq!(&framed.as_ref()[304..], &reference_checksum(&data)[..]);
}

#[test]
fn parse_single_frame() {
    let mut stream = vec![0u8, 0, 0, 3, 7, 8, 9];
    let mut packets = Vec::new();
    let n = stream.len();
    assert_eq!(parse_packets_stream_sync(&mut stream, n, &mut packets), Ok(()));
    assert_eq!(packets.len(), 1);
    assert_eq!(packets[0].as_ref(), &[7u8, 8, 9][..]);
}

#[test]
fn parse_two_frames_and_keep_old_packets() {
    let mut stream = vec![0u8, 0, 0, 2, 1, 2, 0, 0, 0, 1, 5];
    let mut packets = vec![Bytes::from(vec![42u8])];
    let n = stream.len();
    assert_eq!(parse_packets_stream_sync(&mut stream, n, &mut packets), Ok(()));
    assert_eq!(packets.len(), 3);
    assert_eq!(packets[0].as_ref(), &[42u8][..]);
    assert_eq!(packets[1].as_ref(), &[1u8, 2][..]);
    assert_eq!(packets[2].as_ref(), &[5u8][..]);
}

#[test]
fn parse_stops_at_frame_that_runs_past_the_end() {
    let mut stream = vec![0u8, 0, 0, 1, 9, 0, 0, 0, 9, 1, 2];
    let mut packets = Vec::new();
    let n = stream.len();
    assert_eq!(parse_packets_stream_sync(&mut stream, n, &mut packets), Err(()));
    assert_eq!(packets.len(), 1);
    assert_eq!(packets[0].as_ref(), &[9u8][..]);
}

#[test]
fn parse_refuses_length_not_below_bytes_read() {
    let mut stream = vec![0u8, 0, 0, 5, 1, 2, 3, 4, 5];
    let mut packets = Vec::new();
    assert_eq!(parse_packets_stream_sync(&mut stream, 5, &mut packets), Err(()));
    assert!(packets.is_empty());
}

#[test]
fn parse_ignores_four_bytes_or_fewer_at_the_end() {
    let mut stream = vec![0u8, 0, 0, 1, 3, 0, 0, 0, 0, 99, 99];
    let mut packets = Vec::new();
    assert_eq!(parse_packets_stream_sync(&mut stream, 9, &mut packets), Ok(()));
    assert_eq!(packets.len(), 1);
    assert_eq!(packets[0].as_ref(), &[3u8][..]);
}

#[test]
fn parse_only_reads_bytes_read() {
    let mut stream = vec![0u8, 0, 0, 2, 4, 4, 0, 0, 0, 1, 7, 0, 0];
    let mut packets = Vec::new();
    assert_eq!(parse_packets_stream_sync(&mut stream, 6, &mut packets), Ok(()));
    assert_eq!(packets.len(), 1);
}

#[test]
fn frame_roundtrip_through_parse_and_unpack() {
    let payload = vec![10u8, 20, 30, 40, 50, 60];
    let framed = prepare_data(&Bytes::from(payload.clone()));
    let mut stream = framed.to_vec();
    let mut packets = Vec::new();
    let n = stream.len();
    assert_eq!(parse_packets_stream_sync(&mut stream, n, &mut packets), Ok(()));
    assert_eq!(packets.len(), 1);
    assert_eq!(unpack_payload(&packets[0]), Some(payload));
}

#[test]
fn unpack_refuses_short_packets() {
    let payload = vec![1u8, 2, 3, 4];
    let framed = prepare_data(&Bytes::from(payload));
    let body = Bytes::from(framed.as_ref()[4..].to_vec());
    assert_eq!(body.len(), 6);
    assert_eq!(unpack_payload(&body), None);
    assert_eq!(unpack_payload(&Bytes::from(vec![])), None);
}

#[test]
fn unpack_refuses_bad_checksum() {
    let payload = vec![1u8, 2, 3, 4, 5];
    let framed = prepare_data(&Bytes::from(payload.clone()));
    let mut body = framed.as_ref()[4..].to_vec();
    assert_eq!(unpack_payload(&Bytes::from(body.clone())), Some(payload));
    let last = body.len() - 1;
    body[last] ^= 1;
    assert_eq!(unpack_payload(&Bytes::from(body)), None);
}

#[test]
fn stream_of_frames_roundtrip() {
    let payloads = vec![vec![1u8, 2, 3, 4, 5, 6, 7], vec![], vec![9u8; 300], vec![0u8, 1, 2, 3, 4]];
    let mut stream = Vec::new();
    for p in &payloads {
        stream.extend_from_slice(prepare_data(&Bytes::from(p.clone())).as_ref());
    }
    let n = stream.len();
    let mut packets = Vec::new();
    assert_eq!(parse_packets_stream_sync(&mut stream, n, &mut packets), Ok(()));
    assert_eq!(packets.len(), 4);
    assert_eq!(unpack_payload(&packets[0]), Some(payloads[0].clone()));
    assert_eq!(packets[1].len(), 2);
    assert_eq!(unpack_payload(&packets[1]), None);
    assert_eq!(unpack_payload(&packets[2]), Some(payloads[2].clone()));
    assert_eq!(unpack_payload(&packets[3]), Some(payloads[3].clone()));
}

#[test]
fn frames_fit_only_inside_the_buffer() {
    let stream = vec![0u8, 0, 0, 2, 4, 4];
    assert!(frames_fit(&stream, 6));
    assert!(frames_fit(&stream, 4));
    assert!(frames_fit(&stream, 9));
    assert!(!frames_fit(&stream, 11));
    assert!(frames_fit(&[0u8, 0, 0, 50, 1], 10));
    assert!(!frames_fit(&[0u8, 0, 0, 5, 1], 10));
    assert!(!frames_fit(&[0u8, 0], 10));
    let mut ok = vec![0u8, 0, 0, 50, 1];
    let mut packets = Vec::new();
    assert_eq!(parse_packets_stream_sync(&mut ok, 10, &mut packets), Err(()));
    assert!(packets.is_empty());
}

#[test]
fn checksum_with_carry_out_of_long_words() {
    let mut payload = vec![0xFFu8; 32];
    payload.push(0x01);
    payload.extend(std::iter::repeat(0u8).take(15));
    payload.extend(std::iter::repeat(0u8).take(16));
    let framed = prepare_data(&Bytes::from(payload.clone()));
    let f = framed.as_ref();
    let n = f.len();
    assert_eq!(&f[n - 2..], &reference_checksum(&payload)[..]);
    assert_eq!(unpack_payload(&Bytes::from(f[4..].to_vec())), Some(payload));
    let all_ones = vec![0xFFu8; 200];
    let framed = prepare_data(&Bytes::from(all_ones.clone()));
    let f = framed.as_ref();
    assert_eq!(&f[f.len() - 2..], &[0u8, 0][..]);
    assert_eq!(&f[f.len() - 2..], &reference_checksum(&all_ones)[..]);
}
