use inetstack::fail::Fail;
use inetstack::runtime::{PosixRuntime, SgArray};

#[test]
fn sgarray_round_trip() {
    let rt: PosixRuntime<u8> = PosixRuntime::new(0);
    let sga = rt.alloc_sgarray(16).unwrap();
    assert_eq!(sga.sga_numsegs, 1);
    assert_eq!(sga.sga_seg, vec![0u8; 16]);
    let copy = rt.clone_sgarray(&sga).unwrap();
    assert_eq!(copy, sga.sga_seg);
    assert_eq!(rt.free_sgarray(sga), Ok(()));
    let wrapped = rt.into_sgarray(vec![9, 8, 7]).unwrap();
    assert_eq!(rt.clone_sgarray(&wrapped), Ok(vec![9, 8, 7]));
}

#[test]
fn sgarray_arity_is_checked() {
    let rt: PosixRuntime<u8> = PosixRuntime::new(0);
    let bad = SgArray { sga_numsegs: 2, sga_seg: vec![1] };
    assert_eq!(rt.clone_sgarray(&bad), Err(Fail::InvalidArgument));
    assert_eq!(rt.free_sgarray(bad), Err(Fail::InvalidArgument));
    let empty = SgArray { sga_numsegs: 0, sga_seg: vec![] };
    assert_eq!(rt.free_sgarray(empty), Err(Fail::InvalidArgument));
    assert!(matches!(rt.alloc_sgarray(0), Err(Fail::InvalidArgument)));
}

#[test]
fn scheduler_handles() {
    let mut rt: PosixRuntime<&'static str> = PosixRuntime::new(10);
    let a = rt.spawn("a");
    let b = rt.schedule("b");
    assert_ne!(a, b);
    assert_eq!(rt.get_handle(b.key), Some(b));
    assert_eq!(rt.take(a), Some("a"));
    assert_eq!(rt.take(a), None);
    assert_eq!(rt.get_handle(a.key), None);
    assert!(rt.can_insert());
    assert!(rt.insert("c").is_some());
}

#[test]
fn timers_follow_the_clock() {
    let mut rt: PosixRuntime<()> = PosixRuntime::new(1_000);
    let d = rt.wait(100_000_000);
    assert_eq!(d, 100_001_000);
    assert!(!rt.is_due(d));
    rt.advance_clock(100_000_999);
    assert!(!rt.is_due(d));
    rt.advance_clock(100_001_000);
    assert!(rt.is_due(d));
    assert_eq!(rt.wait_until(5), 5);
    assert_eq!(rt.now(), 100_001_000);
    assert_eq!(rt.wait(u64::MAX), u64::MAX);
}

#[test]
fn timers_expire_in_deadline_order() {
    let mut rt: PosixRuntime<()> = PosixRuntime::new(0);
    let late = rt.add_timer(300);
    let early = rt.add_timer(100);
    let tie = rt.add_timer(100);
    let mid = rt.add_timer(200);
    assert_eq!(rt.expire(), Vec::<u64>::new());
    rt.advance_clock(100);
    assert_eq!(rt.expire(), vec![early, tie]);
    rt.advance_clock(250);
    assert_eq!(rt.expire(), vec![mid]);
    assert_eq!(rt.expire(), Vec::<u64>::new());
    rt.advance_clock(1_000);
    assert_eq!(rt.expire(), vec![late]);
}
