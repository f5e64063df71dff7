use vstd::prelude::*;
use crate::config::TcpConfig;
use crate::endpoint::Endpoint;
use crate::established::{EstablishedSocket, Segment};
use crate::fail::Fail;
use crate::tcp::{
    clamp_scale, negotiate_windows, parse_remote_options, remote_options, seq_add, seq_num_add,
    shifted, TcpHeader, TcpOption,
};

verus! {

/// State of one passive-open handshake: the SYN+ACK is sent, then each attempt either
/// sees the peer's ACK or times out, up to the configured number of retries.
#[derive(Debug)]
pub struct Handshake {
    local: Endpoint,
    remote: Endpoint,
    local_isn: u32,
    remote_isn: u32,
    header_window_size: u16,
    remote_window_scale: Option<u8>,
    mss: usize,
    retries_left: usize,
    config: TcpConfig,
}

/// What a timeout does to the retries left: `Some` with the new count when another
/// SYN+ACK goes out, `None` when the handshake gives up.
pub open spec fn timeout_step(retries_left: usize) -> Option<usize> {
    if retries_left > 0 {
        Some((retries_left - 1) as usize)
    } else {
        None
    }
}

/// SYN+ACKs sent by a handshake with `retries_left` retries whose peer never answers:
/// the one already sent, plus one for each timeout that leaves a retry.
pub open spec fn syn_acks_without_answer(retries_left: usize) -> nat
    decreases retries_left,
{
    match timeout_step(retries_left) {
        Some(next) => 1 + syn_acks_without_answer(next),
        None => 1,
    }
}

/// Against a peer that never answers, a handshake configured with `r` retries sends
/// exactly `r + 1` SYN+ACKs before the timeout ends it.
pub proof fn lemma_retry_count(r: usize)
    ensures
        syn_acks_without_answer(r) == r + 1,
    decreases r,
{
    if r > 0 {
        lemma_retry_count((r - 1) as usize);
    }
}

impl Handshake {
    pub closed spec fn local_spec(&self) -> Endpoint {
        self.local
    }

    pub closed spec fn remote_spec(&self) -> Endpoint {
        self.remote
    }

    pub closed spec fn local_isn_spec(&self) -> u32 {
        self.local_isn
    }

    pub closed spec fn remote_isn_spec(&self) -> u32 {
        self.remote_isn
    }

    pub closed spec fn retries_left_spec(&self) -> usize {
        self.retries_left
    }

    pub closed spec fn config_spec(&self) -> TcpConfig {
        self.config
    }

    pub closed spec fn window_size_spec(&self) -> u16 {
        self.header_window_size
    }

    pub closed spec fn remote_scale_spec(&self) -> Option<u8> {
        self.remote_window_scale
    }

    pub closed spec fn mss_spec(&self) -> usize {
        self.mss
    }

    pub open spec fn wf(&self) -> bool {
        self.config_spec().wf()
    }

    /// Starts the handshake for the SYN `syn` from `remote`: its sequence number is the
    /// remote ISN and its options give the remote window scale and MSS.
    pub fn new(local: Endpoint, remote: Endpoint, syn: &TcpHeader, local_isn: u32, config: TcpConfig) -> (r: Self)
        requires
            config.wf(),
        ensures
            r.wf(),
            r.local_spec() == local,
            r.remote_spec() == remote,
            r.local_isn_spec() == local_isn,
            r.remote_isn_spec() == syn.seq_num,
            r.window_size_spec() == syn.window_size,
            (r.remote_scale_spec(), r.mss_spec()) == remote_options(syn.options@),
            r.retries_left_spec() == config.retries_spec(),
            r.config_spec() == config,
    {
        let (ws, mss) = parse_remote_options(&syn.options);
        Handshake {
            local,
            remote,
            local_isn,
            remote_isn: syn.seq_num,
            header_window_size: syn.window_size,
            remote_window_scale: ws,
            mss,
            retries_left: config.get_handshake_retries(),
            config,
        }
    }

    /// The SYN+ACK: local ISN, acknowledging the remote ISN plus one, the configured
    /// window, and MSS and window-scale options.
    pub fn syn_ack(&self) -> (r: TcpHeader)
        requires
            self.wf(),
        ensures
            r.src_port == self.local_spec().port,
            r.dst_port == self.remote_spec().port,
            r.syn && r.ack && !r.rst && !r.fin,
            r.seq_num == self.local_isn_spec(),
            r.ack_num == seq_add(self.remote_isn_spec(), 1),
            r.window_size == self.config_spec().window_size_spec(),
            r.options@ == seq![
                TcpOption::MaximumSegmentSize(self.config_spec().mss_spec() as u16),
                TcpOption::WindowScale(self.config_spec().window_scale_spec()),
            ],
    {
        let mut hdr = TcpHeader::new(self.local.port, self.remote.port);
        hdr.syn = true;
        hdr.seq_num = self.local_isn;
        hdr.ack = true;
        hdr.ack_num = seq_num_add(self.remote_isn, 1);
        hdr.window_size = self.config.get_receive_window_size();
        let mss = self.config.get_advertised_mss() as u16;
        hdr.push_option(TcpOption::MaximumSegmentSize(mss));
        hdr.push_option(TcpOption::WindowScale(self.config.get_window_scale()));
        assert(hdr.options@ =~= seq![
            TcpOption::MaximumSegmentSize(self.config.mss_spec() as u16),
            TcpOption::WindowScale(self.config.window_scale_spec()),
        ]);
        hdr
    }

    /// An attempt timed out: while retries remain, spends one and returns the SYN+ACK to
    /// send again; otherwise the handshake fails with `Timeout`.
    pub fn on_timeout(&mut self) -> (r: Result<TcpHeader, Fail>)
        requires
            old(self).wf(),
        ensures
            final(self).wf(),
            match timeout_step(old(self).retries_left_spec()) {
                Some(n) => final(self).retries_left_spec() == n && r is Ok,
                None => final(self).retries_left_spec() == 0 && r == Err::<TcpHeader, Fail>(Fail::Timeout),
            },
            r is Ok ==> r.unwrap().seq_num == old(self).local_isn_spec() && r.unwrap().syn
                && r.unwrap().ack && r.unwrap().ack_num == seq_add(old(self).remote_isn_spec(), 1),
            final(self).local_isn_spec() == old(self).local_isn_spec(),
            final(self).remote_isn_spec() == old(self).remote_isn_spec(),
            final(self).config_spec() == old(self).config_spec(),
            final(self).local_spec() == old(self).local_spec(),
            final(self).remote_spec() == old(self).remote_spec(),
            final(self).window_size_spec() == old(self).window_size_spec(),
            final(self).remote_scale_spec() == old(self).remote_scale_spec(),
            final(self).mss_spec() == old(self).mss_spec(),
    {
        if self.retries_left > 0 {
            self.retries_left = self.retries_left - 1;
            Ok(self.syn_ack())
        } else {
            Err(Fail::Timeout)
        }
    }

    /// The peer answered with `ack_seg`. Unless it acknowledges the local ISN plus one,
    /// the handshake fails with `BadMessage`. Otherwise the connection is established
    /// with the negotiated windows; a payload on the answer is queued for the reader.
    pub fn on_segment(&self, ack_seg: Segment) -> (r: Result<EstablishedSocket, Fail>)
        requires
            self.wf(),
        ensures
            ack_seg.header.ack_num != seq_add(self.local_isn_spec(), 1) ==> r
                == Err::<EstablishedSocket, Fail>(Fail::BadMessage),
            ack_seg.header.ack_num == seq_add(self.local_isn_spec(), 1) ==> r is Ok && ({
                let s = r.unwrap();
                let (rw, rs) = s.sender_window_spec();
                let (lw, ls) = s.receiver_window_spec();
                &&& s.wf()
                &&& s.local_spec() == self.local_spec()
                &&& s.remote_spec() == self.remote_spec()
                &&& s.receive_next_spec() == seq_add(self.remote_isn_spec(), 1)
                &&& s.send_next_spec() == seq_add(self.local_isn_spec(), 1)
                &&& s.mss_spec() == self.mss_spec()
                &&& s.ack_delay_spec() == self.config_spec().ack_delay_spec()
                &&& s.received_spec().len() == 0
                &&& match self.remote_scale_spec() {
                    Some(w) => rs == clamp_scale(w) && ls == self.config_spec().window_scale_spec() as u32,
                    None => rs == 0 && ls == 0,
                }
                &&& rw as int == shifted(self.window_size_spec(), rs as nat)
                &&& lw as int == shifted(self.config_spec().window_size_spec(), ls as nat)
                &&& s.queue_spec() == if ack_seg.payload@.len() > 0 {
                    seq![ack_seg]
                } else {
                    Seq::<Segment>::empty()
                }
            }),
    {
        if ack_seg.header.ack_num != seq_num_add(self.local_isn, 1) {
            return Err(Fail::BadMessage);
        }
        let w = negotiate_windows(&self.config, self.header_window_size, self.remote_window_scale);
        let mut queue: Vec<Segment> = Vec::new();
        if ack_seg.payload.len() > 0 {
            queue.push(ack_seg);
        }
        proof {
            if queue@.len() > 0 {
                assert(queue@ =~= seq![ack_seg]);
            } else {
                assert(queue@ =~= Seq::<Segment>::empty());
            }
        }
        Ok(
            EstablishedSocket::new(
                self.local,
                self.remote,
                queue,
                seq_num_add(self.remote_isn, 1),
                self.config.get_ack_delay_timeout(),
                w.local_window_size,
                w.local_window_scale,
                seq_num_add(self.local_isn, 1),
                w.remote_window_size,
                w.remote_window_scale,
                self.mss,
            ),
        )
    }

    /// The peer this handshake is with.
    pub fn remote(&self) -> (r: Endpoint)
        ensures
            r == self.remote_spec(),
    {
        self.remote
    }

    /// The local initial sequence number.
    pub fn local_isn(&self) -> (r: u32)
        ensures
            r == self.local_isn_spec(),
    {
        self.local_isn
    }
}

} // verus!
