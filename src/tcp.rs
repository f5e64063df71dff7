use vstd::prelude::*;
use crate::config::{TcpConfig, MAX_WINDOW_SCALE};

verus! {

/// Maximum segment size assumed for a peer that advertises none (RFC 879).
pub const FALLBACK_MSS: usize = 536;

/// Sum of two sequence numbers modulo 2^32.
pub open spec fn seq_add(a: u32, b: u32) -> u32 {
    ((a as int + b as int) % 0x1_0000_0000) as u32
}

/// Adds two sequence numbers with wrap-around.
pub fn seq_num_add(a: u32, b: u32) -> (r: u32)
    ensures
        r == seq_add(a, b),
{
    a.wrapping_add(b)
}

/// A TCP option this stack reads or writes.
#[derive(Clone, Copy, Debug, PartialEq, Eq)]
pub enum TcpOption {
    NoOperation,
    MaximumSegmentSize(u16),
    WindowScale(u8),
    SelectiveAcknowlegementPermitted,
    Timestamp { sender_timestamp: u32, echo_timestamp: u32 },
}

/// The fields of a TCP header that the protocol logic reads and writes.
#[derive(Clone, Debug)]
pub struct TcpHeader {
    pub src_port: u16,
    pub dst_port: u16,
    pub seq_num: u32,
    pub ack_num: u32,
    pub window_size: u16,
    pub syn: bool,
    pub ack: bool,
    pub rst: bool,
    pub fin: bool,
    pub options: Vec<TcpOption>,
}

impl TcpHeader {
    /// A header between two ports with every flag clear, zero numbers and no options.
    pub fn new(src_port: u16, dst_port: u16) -> (r: Self)
        ensures
            r.src_port == src_port,
            r.dst_port == dst_port,
            r.seq_num == 0,
            r.ack_num == 0,
            r.window_size == 0,
            !r.syn && !r.ack && !r.rst && !r.fin,
            r.options@ == Seq::<TcpOption>::empty(),
    {
        TcpHeader {
            src_port,
            dst_port,
            seq_num: 0,
            ack_num: 0,
            window_size: 0,
            syn: false,
            ack: false,
            rst: false,
            fin: false,
            options: Vec::new(),
        }
    }

    /// Appends an option.
    pub fn push_option(&mut self, option: TcpOption)
        ensures
            final(self).options@ == old(self).options@.push(option),
            final(self).src_port == old(self).src_port,
            final(self).dst_port == old(self).dst_port,
            final(self).seq_num == old(self).seq_num,
            final(self).ack_num == old(self).ack_num,
            final(self).window_size == old(self).window_size,
            final(self).syn == old(self).syn,
            final(self).ack == old(self).ack,
            final(self).rst == old(self).rst,
            final(self).fin == old(self).fin,
    {
        self.options.push(option);
    }
}

/// Sequence space a segment occupies: its payload plus one for SYN and one for FIN.
pub open spec fn segment_length(hdr: TcpHeader, payload_len: u32) -> int {
    payload_len as int + (if hdr.syn { 1int } else { 0 }) + (if hdr.fin { 1int } else { 0 })
}

/// The reset answering `incoming` (RFC 793, section 3.4): with ACK set, its sequence
/// number is the incoming acknowledgement number and it acknowledges one past it;
/// otherwise its sequence number is zero and it acknowledges the incoming sequence
/// number plus the segment length. It always carries RST and ACK.
pub fn make_rst(local_port: u16, remote_port: u16, incoming: &TcpHeader, payload_len: u32) -> (r:
    TcpHeader)
    ensures
        r.src_port == local_port,
        r.dst_port == remote_port,
        r.rst && r.ack && !r.syn && !r.fin,
        incoming.ack ==> r.seq_num == incoming.ack_num && r.ack_num == seq_add(incoming.ack_num, 1),
        !incoming.ack ==> r.seq_num == 0 && r.ack_num as int == (incoming.seq_num as int
            + segment_length(*incoming, payload_len)) % 0x1_0000_0000,
        r.options@.len() == 0,
{
    let (seq_num, ack_num): (u32, u32) = if incoming.ack {
        (incoming.ack_num, seq_num_add(incoming.ack_num, 1))
    } else {
        let flags: u32 = (if incoming.syn { 1u32 } else { 0u32 }) + (if incoming.fin { 1u32 } else { 0u32 });
        let len = seq_num_add(payload_len, flags);
        (0, seq_num_add(incoming.seq_num, len))
    };
    let mut hdr = TcpHeader::new(local_port, remote_port);
    hdr.rst = true;
    hdr.seq_num = seq_num;
    hdr.ack = true;
    hdr.ack_num = ack_num;
    hdr
}

/// The window-scale and MSS options of `options`: a later occurrence overrides an
/// earlier one; MSS defaults to `FALLBACK_MSS`.
pub open spec fn remote_options(options: Seq<TcpOption>) -> (Option<u8>, usize)
    decreases options.len(),
{
    if options.len() == 0 {
        (None, FALLBACK_MSS)
    } else {
        let (ws, mss) = remote_options(options.drop_last());
        match options.last() {
            TcpOption::WindowScale(w) => (Some(w), mss),
            TcpOption::MaximumSegmentSize(m) => (ws, m as usize),
            _ => (ws, mss),
        }
    }
}

/// Reads the peer's window scale and MSS from the options of its SYN.
pub fn parse_remote_options(options: &Vec<TcpOption>) -> (r: (Option<u8>, usize))
    ensures
        r == remote_options(options@),
{
    let mut ws: Option<u8> = None;
    let mut mss: usize = FALLBACK_MSS;
    let mut i: usize = 0;
    while i < options.len()
        invariant
            i <= options@.len(),
            (ws, mss) == remote_options(options@.take(i as int)),
        decreases options@.len() - i,
    {
        assert(options@.take(i as int + 1).drop_last() =~= options@.take(i as int));
        match options[i] {
            TcpOption::WindowScale(w) => {
                ws = Some(w);
            },
            TcpOption::MaximumSegmentSize(m) => {
                mss = m as usize;
            },
            _ => {},
        }
        i = i + 1;
    }
    assert(options@.take(options@.len() as int) =~= options@);
    (ws, mss)
}

/// Window sizes and scale shifts agreed on when a connection is established.
#[derive(Clone, Copy, Debug, PartialEq, Eq)]
pub struct WindowParams {
    pub local_window_size: u32,
    pub local_window_scale: u32,
    pub remote_window_size: u32,
    pub remote_window_scale: u8,
}

/// `x` shifted left by `s` bits, as an integer.
pub open spec fn shifted(x: u16, s: nat) -> int
    decreases s,
{
    if s == 0 {
        x as int
    } else {
        2 * shifted(x, (s - 1) as nat)
    }
}

proof fn lemma_shifted_scale(x: u16, s: nat)
    ensures
        0 <= shifted(x, s) <= (65535int) * shifted(1, s),
        1 <= shifted(1, s),
    decreases s,
{
    if s > 0 {
        lemma_shifted_scale(x, (s - 1) as nat);
    }
}

proof fn lemma_shifted_mono(s: nat, t: nat)
    requires
        s <= t,
    ensures
        shifted(1, s) <= shifted(1, t),
    decreases t,
{
    if s < t {
        lemma_shifted_mono(s, (t - 1) as nat);
        lemma_shifted_scale(1, (t - 1) as nat);
    }
}

proof fn lemma_shifted_bound(x: u16, s: nat)
    requires
        s <= 14,
    ensures
        0 <= shifted(x, s) <= 65535 * 16384,
{
    lemma_shifted_scale(x, s);
    lemma_shifted_mono(s, 14);
    reveal_with_fuel(shifted, 15);
    assert(shifted(1, 14) == 16384);
    assert((65535int) * shifted(1, s) <= 65535 * 16384) by (nonlinear_arith)
        requires
            shifted(1, s) <= 16384,
    ;
}

/// Shifts a 16-bit window left by at most 14 bits.
fn scale_window(x: u16, s: u8) -> (r: u32)
    requires
        s <= MAX_WINDOW_SCALE,
    ensures
        r as int == shifted(x, s as nat),
{
    let mut r: u32 = x as u32;
    let mut k: u8 = 0;
    while k < s
        invariant
            k <= s <= 14,
            r as int == shifted(x, k as nat),
        decreases s - k,
    {
        proof {
            lemma_shifted_bound(x, (k + 1) as nat);
        }
        r = r * 2;
        k = k + 1;
    }
    r
}

/// The remote scale after clamping to `MAX_WINDOW_SCALE`.
pub open spec fn clamp_scale(w: u8) -> u8 {
    if w > MAX_WINDOW_SCALE {
        MAX_WINDOW_SCALE
    } else {
        w
    }
}

/// Agrees on windows (RFC 1323): with a remote window-scale option, the remote shift is
/// that value clamped to 14 and the local shift is the configured one; without it, both
/// shifts are zero. Each window is its advertised size shifted by its shift.
pub fn negotiate_windows(config: &TcpConfig, header_window_size: u16, remote_window_scale: Option<
    u8,
>) -> (r: WindowParams)
    requires
        config.wf(),
    ensures
        match remote_window_scale {
            Some(w) => r.remote_window_scale == clamp_scale(w) && r.local_window_scale
                == config.window_scale_spec() as u32,
            None => r.remote_window_scale == 0 && r.local_window_scale == 0,
        },
        r.remote_window_size as int == shifted(header_window_size, r.remote_window_scale as nat),
        r.local_window_size as int == shifted(
            config.window_size_spec(),
            r.local_window_scale as nat,
        ),
{
    let (local_scale, remote_scale): (u8, u8) = match remote_window_scale {
        Some(w) => (config.get_window_scale(), if w > MAX_WINDOW_SCALE {
            MAX_WINDOW_SCALE
        } else {
            w
        }),
        None => (0, 0),
    };
    WindowParams {
        local_window_size: scale_window(config.get_receive_window_size(), local_scale),
        local_window_scale: local_scale as u32,
        remote_window_size: scale_window(header_window_size, remote_scale),
        remote_window_scale: remote_scale,
    }
}

} // verus!
