use inetstack::endpoint::Endpoint;
use inetstack::established::{EstablishedSocket, Segment};
use inetstack::fail::Fail;
use inetstack::rto::{RtoCalculator, INITIAL_RTO, MAX_RTO, MIN_RTO};
use inetstack::tcp::TcpHeader;

fn seg(seq: u32, payload: Vec<u8>) -> Segment {
    let mut h = TcpHeader::new(9, 80);
    h.ack = true;
    h.seq_num = seq;
    Segment { src_ip: 1, header: h, payload }
}

fn socket() -> EstablishedSocket {
    EstablishedSocket::new(
        Endpoint { ip: 1, port: 80 },
        Endpoint { ip: 2, port: 9 },
        vec![],
        100,
        5_000_000,
        0xffff,
        0,
        7,
        0xffff,
        0,
        1460,
    )
}

#[test]
fn segments_are_observed_in_arrival_order() {
    let mut s = socket();
    s.receive(seg(100, vec![b'a', b'b']));
    s.receive(seg(102, vec![b'c']));
    s.receive(seg(103, vec![b'd', b'e']));
    let mut seen = vec![];
    while let Some(x) = s.process_next() {
        seen.push(x.header.seq_num);
    }
    assert_eq!(seen, vec![100, 102, 103]);
    assert_eq!(s.pop(Some(3)), Some(b"abc".to_vec()));
    assert_eq!(s.pop(Some(0)), None);
    assert_eq!(s.pop(None), Some(b"de".to_vec()));
    assert_eq!(s.receive_next(), 105);
}

#[test]
fn out_of_order_payload_is_dropped() {
    let mut s = socket();
    s.receive(seg(150, vec![1, 2, 3]));
    assert!(s.process_next().is_some());
    assert_eq!(s.pop(None), None);
    assert_eq!(s.receive_next(), 100);
    assert!(s.process_next().is_none());
}

#[test]
fn send_after_close_is_refused() {
    let mut s = socket();
    assert_eq!(s.send(&vec![1, 2]), Ok(()));
    assert_eq!(s.close(), Ok(()));
    assert_eq!(s.close(), Err(Fail::Ignored));
    assert_eq!(s.send(&vec![3]), Err(Fail::Ignored));
    assert_eq!(s.current_rto(), INITIAL_RTO);
}

#[test]
fn rto_follows_samples_and_backs_off() {
    let mut r = RtoCalculator::new();
    assert_eq!(r.rto(), 1_000_000_000);
    r.add_sample(100_000_000);
    assert_eq!(r.rto(), 300_000_000);
    r.add_sample(100_000_000);
    assert_eq!(r.rto(), 100_000_000 + 4 * 37_500_000);
    r.back_off();
    assert_eq!(r.rto(), 2 * 250_000_000);
    for _ in 0..20 {
        r.back_off();
    }
    assert_eq!(r.rto(), MAX_RTO);
    let mut small = RtoCalculator::new();
    small.add_sample(0);
    assert_eq!(small.rto(), MIN_RTO);
}

#[test]
fn socket_records_rtt() {
    let mut s = socket();
    s.record_rtt(200_000_000);
    assert_eq!(s.current_rto(), 600_000_000);
}

fn small_window_socket() -> EstablishedSocket {
    EstablishedSocket::new(
        Endpoint { ip: 1, port: 80 },
        Endpoint { ip: 2, port: 9 },
        vec![],
        100,
        5_000_000,
        0xffff,
        0,
        0xffff_fffe,
        5,
        0,
        3,
    )
}

#[test]
fn transmit_respects_mss_and_window() {
    let mut s = small_window_socket();
    assert!(s.transmit_next().is_none());
    s.send(&vec![1, 2, 3, 4, 5, 6, 7]).unwrap();
    let (first_hdr, first) = s.transmit_next().unwrap();
    assert_eq!(first, vec![1, 2, 3]);
    assert_eq!(first_hdr.seq_num, 0xffff_fffe);
    assert_eq!(first_hdr.ack_num, 100);
    assert!(first_hdr.ack);
    let (second_hdr, second) = s.transmit_next().unwrap();
    assert_eq!(second, vec![4, 5]);
    assert_eq!(second_hdr.seq_num, 1);
    assert!(s.transmit_next().is_none());
    assert_eq!(s.send_next(), 3);
    assert!(!s.push(1));
    assert!(s.on_ack(1));
    assert!(s.push(3));
    assert!(!s.push(4));
    assert!(!s.on_ack(1));
    assert!(!s.on_ack(4));
    let (third_hdr, third) = s.transmit_next().unwrap();
    assert_eq!((third_hdr.seq_num, third), (3, vec![6, 7]));
    assert!(s.on_ack(5));
    assert!(s.push(7));
}

#[test]
fn rto_timeout_resends_earliest_unacknowledged_bytes() {
    let mut s = small_window_socket();
    assert!(s.on_rto_timeout().is_none());
    assert_eq!(s.current_rto(), 2 * INITIAL_RTO);
    s.send(&vec![1, 2, 3, 4, 5]).unwrap();
    s.transmit_next().unwrap();
    s.transmit_next().unwrap();
    let (hdr, bytes) = s.on_rto_timeout().unwrap();
    assert_eq!(hdr.seq_num, 0xffff_fffe);
    assert_eq!(bytes, vec![1, 2, 3]);
    assert_eq!(s.current_rto(), 4 * INITIAL_RTO);
    assert!(s.on_ack(0));
    let (hdr, bytes) = s.on_rto_timeout().unwrap();
    assert_eq!(hdr.seq_num, 0);
    assert_eq!(bytes, vec![3, 4, 5]);
    assert!(s.on_ack(3));
    assert!(s.on_rto_timeout().is_none());
}
