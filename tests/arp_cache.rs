use inetstack::arp::{ArpCache, MacAddress};
use std::time::Duration;

const ALICE_IPV4: u32 = 0xc0a8_0101;
const ALICE_MAC: MacAddress = MacAddress([0x12, 0x23, 0x45, 0x67, 0x89, 0xab]);
const BOB_IPV4: u32 = 0xc0a8_0102;
const BOB_MAC: MacAddress = MacAddress([0xab, 0x89, 0x67, 0x45, 0x23, 0x12]);

fn nanos(d: Duration) -> u64 {
    d.as_nanos() as u64
}

#[test]
fn evict_with_default_ttl() {
    let now: u64 = 1_000;
    let ttl = nanos(Duration::from_secs(1));
    let later = now + ttl;

    let mut cache = ArpCache::new(now, Some(ttl), None, false);
    cache.insert(ALICE_IPV4, ALICE_MAC);
    assert_eq!(cache.get(ALICE_IPV4), Some(ALICE_MAC));

    cache.advance_clock(later);
    cache.clear();

    assert_eq!(cache.get(ALICE_IPV4), None);
}

#[test]
fn import() {
    let now: u64 = 1_000;
    let ttl = nanos(Duration::from_secs(1));
    let map: Vec<(u32, MacAddress)> = vec![(ALICE_IPV4, ALICE_MAC)];
    let cache = ArpCache::new(now, Some(ttl), Some(&map), false);
    assert_eq!(cache.get(ALICE_IPV4), Some(ALICE_MAC));
}

#[test]
fn export() {
    let now: u64 = 1_000;
    let ttl = nanos(Duration::from_secs(1));
    let mut cache = ArpCache::new(now, Some(ttl), None, false);
    cache.insert(ALICE_IPV4, ALICE_MAC);
    assert_eq!(cache.get(ALICE_IPV4), Some(ALICE_MAC));
    let map = cache.export();
    assert_eq!(
        map.iter().find(|(ip, _)| *ip == ALICE_IPV4),
        Some(&(ALICE_IPV4, ALICE_MAC))
    );
}

#[test]
fn arp_entry_expires_after_ttl_without_clear() {
    let mut cache = ArpCache::new(0, Some(1_000_000_000), None, false);
    cache.insert(0x0a00_0001, ALICE_MAC);
    cache.advance_clock(1_000_000_000 - 1);
    assert_eq!(cache.get(0x0a00_0001), Some(ALICE_MAC));
    cache.advance_clock(1_000_000_000);
    assert_eq!(cache.get(0x0a00_0001), Some(ALICE_MAC));
    cache.advance_clock(1_000_000_001);
    assert_eq!(cache.get(0x0a00_0001), None);
    assert!(cache.export().is_empty());
}

#[test]
fn arp_reinsert_refreshes_entry() {
    let mut cache = ArpCache::new(0, Some(100), None, false);
    cache.insert(ALICE_IPV4, ALICE_MAC);
    cache.advance_clock(80);
    cache.insert(ALICE_IPV4, BOB_MAC);
    cache.advance_clock(150);
    assert_eq!(cache.get(ALICE_IPV4), Some(BOB_MAC));
    assert_eq!(cache.export(), vec![(ALICE_IPV4, BOB_MAC)]);
    cache.advance_clock(181);
    assert_eq!(cache.get(ALICE_IPV4), None);
}

#[test]
fn arp_disabled_cache_misses() {
    let map = vec![(ALICE_IPV4, ALICE_MAC)];
    let mut cache = ArpCache::new(0, None, Some(&map), true);
    cache.insert(BOB_IPV4, BOB_MAC);
    assert_eq!(cache.get(ALICE_IPV4), None);
    assert_eq!(cache.get(BOB_IPV4), None);
}

#[test]
fn arp_without_ttl_never_expires() {
    let mut cache = ArpCache::new(5, None, None, false);
    cache.insert(ALICE_IPV4, ALICE_MAC);
    cache.advance_clock(u64::MAX);
    assert_eq!(cache.get(ALICE_IPV4), Some(ALICE_MAC));
}

#[test]
fn arp_import_then_export_holds_every_pair() {
    let map = vec![(ALICE_IPV4, ALICE_MAC), (BOB_IPV4, BOB_MAC)];
    let cache = ArpCache::new(7, Some(10), Some(&map), false);
    let out = cache.export();
    assert_eq!(out.len(), 2);
    assert!(out.contains(&(ALICE_IPV4, ALICE_MAC)));
    assert!(out.contains(&(BOB_IPV4, BOB_MAC)));
}

#[test]
fn arp_import_later_pair_wins() {
    let map = vec![(ALICE_IPV4, ALICE_MAC), (ALICE_IPV4, BOB_MAC)];
    let cache = ArpCache::new(0, None, Some(&map), false);
    assert_eq!(cache.get(ALICE_IPV4), Some(BOB_MAC));
    assert_eq!(cache.export(), vec![(ALICE_IPV4, BOB_MAC)]);
}
