use inetstack::config::{TcpConfig, DEFAULT_MSS, MAX_MSS, MIN_MSS};
use std::time::Duration;

#[test]
fn test_tcp_config_default() {
    let config: TcpConfig = TcpConfig::default();
    assert_eq!(config.get_advertised_mss(), DEFAULT_MSS);
    assert_eq!(config.get_handshake_retries(), 5);
    assert_eq!(config.get_handshake_timeout(), Duration::from_secs(3).as_nanos() as u64);
    assert_eq!(config.get_receive_window_size(), 0xffff);
    assert_eq!(config.get_window_scale(), 0);
    assert_eq!(config.get_rx_checksum_offload(), false);
    assert_eq!(config.get_tx_checksum_offload(), false);
}

#[test]
fn config_new_clamps_mss_and_sets_offload() {
    let low = TcpConfig::new(Some(100), Some(true)).unwrap();
    assert_eq!(low.get_advertised_mss(), MIN_MSS);
    assert!(low.get_rx_checksum_offload());
    assert!(low.get_tx_checksum_offload());
    let high = TcpConfig::new(Some(70_000), None).unwrap();
    assert_eq!(high.get_advertised_mss(), MAX_MSS);
    assert!(!high.get_rx_checksum_offload());
    let mid = TcpConfig::new(Some(1200), Some(false)).unwrap();
    assert_eq!(mid.get_advertised_mss(), 1200);
    let none = TcpConfig::new(None, None).unwrap();
    assert_eq!(none.get_advertised_mss(), DEFAULT_MSS);
    assert_eq!(none.get_ack_delay_timeout(), Duration::from_millis(5).as_nanos() as u64);
}

#[test]
fn config_with_options_clamps_window_scale() {
    let c = TcpConfig::with_options(1460, 2, 100_000_000, 0x4000, 20, 1, true, false);
    assert_eq!(c.get_window_scale(), 14);
    assert_eq!(c.get_handshake_retries(), 2);
    assert_eq!(c.get_handshake_timeout(), 100_000_000);
    assert_eq!(c.get_receive_window_size(), 0x4000);
    assert!(c.get_rx_checksum_offload());
    assert!(!c.get_tx_checksum_offload());
    assert_eq!(TcpConfig::with_options(10, 0, 0, 0, 3, 0, false, false).get_window_scale(), 3);
}
