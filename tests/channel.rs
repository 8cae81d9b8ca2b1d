use webrtc_signaling::channel::{encode_frame, Channel, Received, MAX_PAYLOAD};
use webrtc_signaling::error::SignalingError;

fn loopback(payload: &[u8]) -> Received {
    let mut a = Channel::new();
    let mut b = Channel::new();
    a.send(payload).unwrap();
    let bytes = a.take_outgoing();
    b.push_incoming(&bytes);
    b.receive()
}

fn expect_message(r: Received) -> Vec<u8> {
    match r {
        Received::Message(m) => m,
        Received::End => panic!("unexpected end of stream"),
        Received::Pending => panic!("unexpected pending"),
    }
}

#[test]
fn round_trip_small_payload() {
    assert_eq!(expect_message(loopback(b"x")), b"x".to_vec());
}

#[test]
fn round_trip_medium_payload() {
    let p: Vec<u8> = (0..300u32).map(|i| (i % 251) as u8).collect();
    assert_eq!(expect_message(loopback(&p)), p);
}

#[test]
fn round_trip_largest_payload() {
    let p: Vec<u8> = (0..MAX_PAYLOAD).map(|i| (i % 256) as u8).collect();
    assert_eq!(expect_message(loopback(&p)), p);
}

#[test]
fn frame_layout_is_length_high_byte_first() {
    let p = vec![7u8; 300];
    let f = encode_frame(&p).unwrap();
    assert_eq!(f.len(), 302);
    assert_eq!(f[0], 1);
    assert_eq!(f[1], 44);
    assert_eq!(&f[2..], &p[..]);
}

#[test]
fn empty_payload_is_rejected_before_writing() {
    let mut a = Channel::new();
    assert_eq!(a.send(b""), Err(SignalingError::TransportWrite));
    assert!(a.take_outgoing().is_empty());
    assert_eq!(encode_frame(b""), Err(SignalingError::TransportWrite));
}

#[test]
fn oversized_payload_is_rejected_before_writing() {
    let mut a = Channel::new();
    let p = vec![1u8; MAX_PAYLOAD + 1];
    assert_eq!(a.send(&p), Err(SignalingError::TransportWrite));
    assert!(a.take_outgoing().is_empty());
}

#[test]
fn close_ends_the_peer_stream_for_good() {
    let mut a = Channel::new();
    let mut b = Channel::new();
    a.send(b"hello").unwrap();
    a.close_for_writing().unwrap();
    assert!(a.is_write_closed());
    let bytes = a.take_outgoing();
    assert_eq!(&bytes[bytes.len() - 2..], &[0u8, 0u8]);
    b.push_incoming(&bytes);
    assert_eq!(expect_message(b.receive()), b"hello".to_vec());
    assert!(matches!(b.receive(), Received::End));
    assert!(matches!(b.receive(), Received::End));
    b.push_incoming(&encode_frame(b"late").unwrap());
    assert!(matches!(b.receive(), Received::End));
}

#[test]
fn send_after_close_is_rejected() {
    let mut a = Channel::new();
    a.close_for_writing().unwrap();
    let _ = a.take_outgoing();
    assert_eq!(a.send(b"x"), Err(SignalingError::TransportWrite));
    assert_eq!(a.close_for_writing(), Err(SignalingError::TransportWrite));
    assert!(a.take_outgoing().is_empty());
}

#[test]
fn peer_closed_mid_frame_is_no_message() {
    let mut b = Channel::new();
    let f = encode_frame(b"abcdef").unwrap();
    b.push_incoming(&f[..5]);
    assert!(matches!(b.receive(), Received::Pending));
    b.peer_finished();
    assert!(matches!(b.receive(), Received::End));
    assert!(matches!(b.receive(), Received::End));
}

#[test]
fn peer_closed_inside_length_is_no_message() {
    let mut b = Channel::new();
    b.push_incoming(&[0u8]);
    assert!(matches!(b.receive(), Received::Pending));
    b.peer_finished();
    assert!(matches!(b.receive(), Received::End));
}

#[test]
fn frames_arriving_in_pieces_are_reassembled() {
    let mut a = Channel::new();
    let mut b = Channel::new();
    a.send(b"first").unwrap();
    a.send(b"second").unwrap();
    let bytes = a.take_outgoing();
    for chunk in bytes.chunks(3) {
        b.push_incoming(chunk);
    }
    assert_eq!(expect_message(b.receive()), b"first".to_vec());
    assert_eq!(expect_message(b.receive()), b"second".to_vec());
    assert!(matches!(b.receive(), Received::Pending));
}
