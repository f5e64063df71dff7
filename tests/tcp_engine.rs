use inetstack::config::TcpConfig;
use inetstack::endpoint::{Endpoint, IsnGenerator};
use inetstack::established::Segment;
use inetstack::fail::Fail;
use inetstack::handshake::Handshake;
use inetstack::passive_open::{PassiveAction, PassiveSocket};
use inetstack::runtime::PosixRuntime;
use inetstack::tcp::{make_rst, negotiate_windows, parse_remote_options, TcpHeader, TcpOption, FALLBACK_MSS};

const LOCAL: Endpoint = Endpoint { ip: 0x0a00_0001, port: 80 };
const PEER_IP: u32 = 0x0a00_0002;

fn syn(port: u16, seq: u32) -> TcpHeader {
    let mut h = TcpHeader::new(port, LOCAL.port);
    h.syn = true;
    h.seq_num = seq;
    h
}

fn ack(port: u16, seq: u32, ack_num: u32) -> TcpHeader {
    let mut h = TcpHeader::new(port, LOCAL.port);
    h.ack = true;
    h.seq_num = seq;
    h.ack_num = ack_num;
    h
}

fn open_handshake(listener: &mut PassiveSocket, hdr: &TcpHeader) -> (Handshake, TcpHeader) {
    match listener.on_segment(PEER_IP, hdr, 0) {
        PassiveAction::Handshake(h, syn_ack) => (h, syn_ack),
        other => panic!("expected a handshake, got {:?}", other),
    }
}

#[test]
fn backlog_admits_two_and_resets_third() {
    let mut listener = PassiveSocket::new(LOCAL, 2, TcpConfig::default(), 7);
    open_handshake(&mut listener, &syn(1, 100));
    open_handshake(&mut listener, &syn(2, 200));
    match listener.on_segment(PEER_IP, &syn(3, 300), 0) {
        PassiveAction::Reset(ip, rst) => {
            assert_eq!(ip, PEER_IP);
            assert!(rst.rst && rst.ack);
            assert_eq!(rst.seq_num, 0);
            assert_eq!(rst.ack_num, 301);
            assert_eq!(rst.src_port, 80);
            assert_eq!(rst.dst_port, 3);
        },
        other => panic!("expected a reset, got {:?}", other),
    }
    assert_eq!(listener.inflight_len(), 2);
}

#[test]
fn segment_from_inflight_remote_is_forwarded() {
    let mut listener = PassiveSocket::new(LOCAL, 4, TcpConfig::default(), 7);
    open_handshake(&mut listener, &syn(1, 100));
    match listener.on_segment(PEER_IP, &ack(1, 101, 5), 0) {
        PassiveAction::Forward(e) => assert_eq!(e, Endpoint { ip: PEER_IP, port: 1 }),
        other => panic!("expected forward, got {:?}", other),
    }
    assert!(listener.on_connection_closed(&Endpoint { ip: PEER_IP, port: 1 }));
    assert!(!listener.on_connection_closed(&Endpoint { ip: PEER_IP, port: 1 }));
    assert_eq!(listener.inflight_len(), 0);
}

#[test]
fn non_syn_segment_is_reset() {
    let mut listener = PassiveSocket::new(LOCAL, 4, TcpConfig::default(), 7);
    match listener.on_segment(PEER_IP, &ack(9, 55, 1234), 0) {
        PassiveAction::Reset(_, rst) => {
            assert_eq!(rst.seq_num, 1234);
            assert_eq!(rst.ack_num, 1235);
            assert!(rst.ack && rst.rst);
        },
        other => panic!("expected a reset, got {:?}", other),
    }
    assert_eq!(listener.inflight_len(), 0);
}

#[test]
fn closed_listener_drops_segments() {
    let mut listener = PassiveSocket::new(LOCAL, 4, TcpConfig::default(), 7);
    assert!(listener.close().is_ok());
    assert!(matches!(listener.on_segment(PEER_IP, &syn(1, 1), 0), PassiveAction::Drop));
    assert_eq!(listener.endpoint(), LOCAL);
}

#[test]
fn rst_rules() {
    let mut with_ack = TcpHeader::new(5, 80);
    with_ack.ack = true;
    with_ack.ack_num = 0xffff_ffff;
    let r = make_rst(80, 5, &with_ack, 10);
    assert_eq!((r.seq_num, r.ack_num), (0xffff_ffff, 0));
    let mut no_ack = TcpHeader::new(5, 80);
    no_ack.syn = true;
    no_ack.fin = true;
    no_ack.seq_num = 1000;
    let r = make_rst(80, 5, &no_ack, 10);
    assert_eq!((r.seq_num, r.ack_num), (0, 1012));
    assert!(r.ack && r.rst && !r.syn);
}

#[test]
fn syn_ack_retries_then_times_out() {
    let config = TcpConfig::with_options(1460, 2, 100_000_000, 0xffff, 0, 5_000_000, false, false);
    let mut h = Handshake::new(LOCAL, Endpoint { ip: PEER_IP, port: 1 }, &syn(1, 10), 99, config);
    let mut sent = vec![h.syn_ack()];
    loop {
        match h.on_timeout() {
            Ok(hdr) => sent.push(hdr),
            Err(e) => {
                assert_eq!(e, Fail::Timeout);
                break;
            },
        }
    }
    assert_eq!(sent.len(), 3);
    for hdr in &sent {
        assert!(hdr.syn && hdr.ack);
        assert_eq!(hdr.seq_num, 99);
        assert_eq!(hdr.ack_num, 11);
    }
}

#[test]
fn syn_ack_carries_options() {
    let h = Handshake::new(LOCAL, Endpoint { ip: PEER_IP, port: 1 }, &syn(1, 10), 99, TcpConfig::default());
    let s = h.syn_ack();
    assert_eq!(s.window_size, 0xffff);
    assert_eq!(s.options, vec![TcpOption::MaximumSegmentSize(1450), TcpOption::WindowScale(0)]);
}

#[test]
fn bad_ack_yields_bad_message() {
    let mut listener = PassiveSocket::new(LOCAL, 4, TcpConfig::default(), 7);
    let (h, syn_ack) = open_handshake(&mut listener, &syn(1, 1000));
    let l = syn_ack.seq_num;
    assert_eq!(l, h.local_isn());
    assert_eq!(syn_ack.ack_num, 1001);
    let reply = Segment { src_ip: PEER_IP, header: ack(1, 1001, l.wrapping_add(2)), payload: vec![] };
    let result = h.on_segment(reply);
    assert!(matches!(result, Err(Fail::BadMessage)));
    listener.push_ready(result);
    assert!(matches!(listener.do_accept(), Some(Err(Fail::BadMessage))));
    assert!(listener.do_accept().is_none());
}

#[test]
fn window_scale_is_clamped() {
    let mut s = syn(1, 10);
    s.window_size = 0x4000;
    s.options.push(TcpOption::WindowScale(20));
    let h = Handshake::new(LOCAL, Endpoint { ip: PEER_IP, port: 1 }, &s, 99, TcpConfig::default());
    let reply = Segment { src_ip: PEER_IP, header: ack(1, 11, 100), payload: vec![] };
    let sock = h.on_segment(reply).unwrap();
    assert_eq!(sock.remote_window(), (0x1000_0000, 14));
    assert_eq!(sock.local_window(), (0xffff, 0));
}

#[test]
fn absent_window_scale_leaves_windows_unscaled() {
    let config = TcpConfig::with_options(1460, 1, 1, 0x1000, 7, 1, false, false);
    let w = negotiate_windows(&config, 0x2000, None);
    assert_eq!((w.remote_window_size, w.remote_window_scale), (0x2000, 0));
    assert_eq!((w.local_window_size, w.local_window_scale), (0x1000, 0));
    let w = negotiate_windows(&config, 0x2000, Some(3));
    assert_eq!((w.remote_window_size, w.remote_window_scale), (0x10000, 3));
    assert_eq!((w.local_window_size, w.local_window_scale), (0x80000, 7));
}

#[test]
fn remote_options_last_wins_and_mss_falls_back() {
    assert_eq!(parse_remote_options(&vec![]), (None, FALLBACK_MSS));
    let opts = vec![
        TcpOption::MaximumSegmentSize(1000),
        TcpOption::NoOperation,
        TcpOption::WindowScale(2),
        TcpOption::MaximumSegmentSize(1200),
    ];
    assert_eq!(parse_remote_options(&opts), (Some(2), 1200));
}

#[test]
fn data_on_final_ack_is_delivered() {
    let mut listener = PassiveSocket::new(LOCAL, 4, TcpConfig::default(), 7);
    let (h, syn_ack) = open_handshake(&mut listener, &syn(1, 500));
    let reply = Segment {
        src_ip: PEER_IP,
        header: ack(1, 501, syn_ack.seq_num.wrapping_add(1)),
        payload: vec![1, 2, 3, 4],
    };
    listener.push_ready(h.on_segment(reply));
    let mut sock = listener.do_accept().unwrap().unwrap();
    assert!(sock.process_next().is_some());
    assert_eq!(sock.pop(None), Some(vec![1, 2, 3, 4]));
    assert_eq!(sock.receive_next(), 505);
    assert_eq!(sock.pop(None), None);
    assert_eq!(sock.remote_mss(), FALLBACK_MSS);
    assert_eq!(sock.send_next(), syn_ack.seq_num.wrapping_add(1));
    assert_eq!(sock.endpoints(), (LOCAL, Endpoint { ip: PEER_IP, port: 1 }));
}

#[test]
fn isn_depends_on_counter_and_endpoints() {
    let mut g = IsnGenerator::new(1);
    let remote = Endpoint { ip: 2, port: 3 };
    let a = g.generate(&LOCAL, &remote);
    let b = g.generate(&LOCAL, &remote);
    assert_ne!(a, b);
    let expected = 1u32
        .wrapping_add(LOCAL.ip)
        .wrapping_add(2)
        .wrapping_add((LOCAL.port as u32) << 16)
        .wrapping_add(3);
    assert_eq!(a, expected);
    assert_eq!(b, expected.wrapping_add(0x0001_0003));
}

#[test]
fn syn_ack_retry_follows_the_clock() {
    let timeout: u64 = 100_000_000;
    let config = TcpConfig::with_options(1460, 2, timeout, 0xffff, 0, 5_000_000, false, false);
    let mut listener = PassiveSocket::new(LOCAL, 4, config, 3);
    let (mut h, first) = open_handshake(&mut listener, &syn(1, 10));
    let mut rt: PosixRuntime<()> = PosixRuntime::new(0);
    let mut wire = vec![first];
    let mut deadline = rt.wait(config.get_handshake_timeout());
    let mut now: u64 = 0;
    let mut outcome = None;
    while outcome.is_none() {
        now += 10_000_000;
        rt.advance_clock(now);
        if rt.is_due(deadline) {
            match h.on_timeout() {
                Ok(hdr) => {
                    wire.push(hdr);
                    deadline = rt.wait(timeout);
                },
                Err(e) => outcome = Some(e),
            }
        }
    }
    assert_eq!(outcome, Some(Fail::Timeout));
    assert_eq!(now, 300_000_000);
    assert_eq!(wire.len(), 3);
    listener.push_ready(Err(Fail::Timeout));
    assert!(matches!(listener.do_accept(), Some(Err(Fail::Timeout))));
}
