use vstd::prelude::*;
use crate::fail::Fail;

verus! {

/// Smallest maximum segment size that may be advertised (RFC 879).
pub const MIN_MSS: usize = 536;
/// Largest maximum segment size that fits the 16-bit option.
pub const MAX_MSS: usize = 65535;
/// Maximum segment size advertised when nothing else is configured.
pub const DEFAULT_MSS: usize = 1450;
/// Largest window-scale shift permitted by RFC 1323.
pub const MAX_WINDOW_SCALE: u8 = 14;
/// Number of nanoseconds in one millisecond.
pub const NANOS_PER_MILLI: u64 = 1_000_000;
/// Number of nanoseconds in one second.
pub const NANOS_PER_SEC: u64 = 1_000_000_000;
/// Default per-attempt handshake timeout: three seconds.
pub const TCP_HANDSHAKE_TIMEOUT: u64 = 3_000_000_000;
/// Default cap on delayed acknowledgements: five milliseconds.
pub const TCP_ACK_DELAY_TIMEOUT: u64 = 5_000_000;
/// Default number of SYN+ACK retransmissions.
pub const DEFAULT_HANDSHAKE_RETRIES: usize = 5;
/// Default advertised receive window, before scaling.
pub const DEFAULT_RECEIVE_WINDOW: u16 = 0xffff;

/// The value of `v` clamped into `[lo, hi]`.
pub closed spec fn clamp_spec(v: int, lo: int, hi: int) -> int {
    if v < lo {
        lo
    } else if v > hi {
        hi
    } else {
        v
    }
}

/// TCP configuration. Durations are in nanoseconds.
#[derive(Clone, Copy, Debug)]
pub struct TcpConfig {
    advertised_mss: usize,
    handshake_retries: usize,
    handshake_timeout: u64,
    receive_window_size: u16,
    window_scale: u8,
    ack_delay_timeout: u64,
    rx_checksum_offload: bool,
    tx_checksum_offload: bool,
}

impl TcpConfig {
    /// The advertised MSS lies in `[MIN_MSS, MAX_MSS]` and the window scale is at most 14.
    pub open spec fn wf(&self) -> bool {
        MIN_MSS <= self.mss_spec() <= MAX_MSS && self.window_scale_spec() <= MAX_WINDOW_SCALE
    }

    pub open spec fn is_default(&self) -> bool {
        &&& self.mss_spec() == DEFAULT_MSS
        &&& self.retries_spec() == DEFAULT_HANDSHAKE_RETRIES
        &&& self.timeout_spec() == TCP_HANDSHAKE_TIMEOUT
        &&& self.window_size_spec() == DEFAULT_RECEIVE_WINDOW
        &&& self.window_scale_spec() == 0
        &&& self.ack_delay_spec() == TCP_ACK_DELAY_TIMEOUT
        &&& !self.rx_offload_spec()
        &&& !self.tx_offload_spec()
    }

    pub closed spec fn mss_spec(&self) -> usize {
        self.advertised_mss
    }

    pub closed spec fn retries_spec(&self) -> usize {
        self.handshake_retries
    }

    pub closed spec fn timeout_spec(&self) -> u64 {
        self.handshake_timeout
    }

    pub closed spec fn window_size_spec(&self) -> u16 {
        self.receive_window_size
    }

    pub closed spec fn window_scale_spec(&self) -> u8 {
        self.window_scale
    }

    pub closed spec fn ack_delay_spec(&self) -> u64 {
        self.ack_delay_timeout
    }

    pub closed spec fn rx_offload_spec(&self) -> bool {
        self.rx_checksum_offload
    }

    pub closed spec fn tx_offload_spec(&self) -> bool {
        self.tx_checksum_offload
    }

    /// Creates a configuration from the defaults, overridden by an MSS (clamped into
    /// `[MIN_MSS, MAX_MSS]`) and a checksum-offload flag that applies to both directions.
    pub fn new(mss: Option<usize>, checksum_offload: Option<bool>) -> (r: Result<Self, Fail>)
        ensures
            r is Ok,
            r.unwrap().wf(),
            r.unwrap().retries_spec() == DEFAULT_HANDSHAKE_RETRIES,
            r.unwrap().timeout_spec() == TCP_HANDSHAKE_TIMEOUT,
            r.unwrap().window_size_spec() == DEFAULT_RECEIVE_WINDOW,
            r.unwrap().window_scale_spec() == 0,
            r.unwrap().ack_delay_spec() == TCP_ACK_DELAY_TIMEOUT,
            r.unwrap().mss_spec() == match mss {
                Some(m) => clamp_spec(m as int, MIN_MSS as int, MAX_MSS as int) as usize,
                None => DEFAULT_MSS,
            },
            r.unwrap().rx_offload_spec() == match checksum_offload {
                Some(b) => b,
                None => false,
            },
            r.unwrap().tx_offload_spec() == r.unwrap().rx_offload_spec(),
    {
        let mut options = Self::default();
        if let Some(value) = mss {
            options.advertised_mss = clamp_mss(value);
        }
        if let Some(value) = checksum_offload {
            options.rx_checksum_offload = value;
            options.tx_checksum_offload = value;
        }
        Ok(options)
    }

    /// Creates a configuration from every recognised option. The MSS is clamped into
    /// `[MIN_MSS, MAX_MSS]` and the window scale to at most 14.
    pub fn with_options(
        advertised_mss: usize,
        handshake_retries: usize,
        handshake_timeout: u64,
        receive_window_size: u16,
        window_scale: u8,
        ack_delay_timeout: u64,
        rx_checksum_offload: bool,
        tx_checksum_offload: bool,
    ) -> (r: Self)
        ensures
            r.wf(),
            r.mss_spec() == clamp_spec(advertised_mss as int, MIN_MSS as int, MAX_MSS as int),
            r.retries_spec() == handshake_retries,
            r.timeout_spec() == handshake_timeout,
            r.window_size_spec() == receive_window_size,
            r.window_scale_spec() == if window_scale > MAX_WINDOW_SCALE {
                MAX_WINDOW_SCALE
            } else {
                window_scale
            },
            r.ack_delay_spec() == ack_delay_timeout,
            r.rx_offload_spec() == rx_checksum_offload,
            r.tx_offload_spec() == tx_checksum_offload,
    {
        TcpConfig {
            advertised_mss: clamp_mss(advertised_mss),
            handshake_retries,
            handshake_timeout,
            receive_window_size,
            window_scale: if window_scale > MAX_WINDOW_SCALE {
                MAX_WINDOW_SCALE
            } else {
                window_scale
            },
            ack_delay_timeout,
            rx_checksum_offload,
            tx_checksum_offload,
        }
    }

    /// Whether the configuration is well formed.
    pub fn is_valid(&self) -> (r: bool)
        ensures
            r == self.wf(),
    {
        MIN_MSS <= self.advertised_mss && self.advertised_mss <= MAX_MSS && self.window_scale
            <= MAX_WINDOW_SCALE
    }

    /// Gets the advertised maximum segment size.
    pub fn get_advertised_mss(&self) -> (r: usize)
        ensures
            r == self.mss_spec(),
    {
        self.advertised_mss
    }

    /// Gets the number of handshake retries.
    pub fn get_handshake_retries(&self) -> (r: usize)
        ensures
            r == self.retries_spec(),
    {
        self.handshake_retries
    }

    /// Gets the per-attempt handshake timeout, in nanoseconds.
    pub fn get_handshake_timeout(&self) -> (r: u64)
        ensures
            r == self.timeout_spec(),
    {
        self.handshake_timeout
    }

    /// Gets the advertised receive window, before scaling.
    pub fn get_receive_window_size(&self) -> (r: u16)
        ensures
            r == self.window_size_spec(),
    {
        self.receive_window_size
    }

    /// Gets the local window-scale shift.
    pub fn get_window_scale(&self) -> (r: u8)
        ensures
            r == self.window_scale_spec(),
    {
        self.window_scale
    }

    /// Gets the delayed-acknowledgement cap, in nanoseconds.
    pub fn get_ack_delay_timeout(&self) -> (r: u64)
        ensures
            r == self.ack_delay_spec(),
    {
        self.ack_delay_timeout
    }

    /// Gets the transmit checksum-offload flag.
    pub fn get_tx_checksum_offload(&self) -> (r: bool)
        ensures
            r == self.tx_offload_spec(),
    {
        self.tx_checksum_offload
    }

    /// Gets the receive checksum-offload flag.
    pub fn get_rx_checksum_offload(&self) -> (r: bool)
        ensures
            r == self.rx_offload_spec(),
    {
        self.rx_checksum_offload
    }
}

/// Clamps an MSS into `[MIN_MSS, MAX_MSS]`.
fn clamp_mss(v: usize) -> (r: usize)
    ensures
        r == clamp_spec(v as int, MIN_MSS as int, MAX_MSS as int),
{
    if v < MIN_MSS {
        MIN_MSS
    } else if v > MAX_MSS {
        MAX_MSS
    } else {
        v
    }
}

impl Default for TcpConfig {
    /// The default configuration.
    fn default() -> (r: Self)
        ensures
            r.is_default(),
            r.wf(),
    {
        TcpConfig {
            advertised_mss: DEFAULT_MSS,
            handshake_retries: DEFAULT_HANDSHAKE_RETRIES,
            handshake_timeout: TCP_HANDSHAKE_TIMEOUT,
            receive_window_size: DEFAULT_RECEIVE_WINDOW,
            window_scale: 0,
            ack_delay_timeout: TCP_ACK_DELAY_TIMEOUT,
            rx_checksum_offload: false,
            tx_checksum_offload: false,
        }
    }
}

} // verus!
