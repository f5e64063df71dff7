use vstd::prelude::*;
use crate::endpoint::Endpoint;
use crate::fail::Fail;
use crate::rto::RtoCalculator;
use crate::tcp::{seq_add, seq_num_add, TcpHeader};

verus! {

/// An inbound segment: the sender's IPv4 address, the TCP header and the payload.
#[derive(Clone, Debug)]
pub struct Segment {
    pub src_ip: u32,
    pub header: TcpHeader,
    pub payload: Vec<u8>,
}

/// Where a connection stands in closing.
#[derive(Clone, Copy, Debug, PartialEq, Eq, Structural)]
pub enum CloseState {
    /// Data flows both ways.
    Established,
    /// A local close was requested; the connection drains.
    Closing,
}

/// Control block of an established connection: its endpoints, sequence state, windows,
/// MSS, timeout estimator, the queue of inbound segments in arrival order, the bytes
/// ready for the reader and the bytes waiting to be sent.
#[derive(Debug)]
pub struct EstablishedSocket {
    local: Endpoint,
    remote: Endpoint,
    receive_next: u32,
    send_next: u32,
    send_unacked: u32,
    ack_delay_timeout: u64,
    receiver_window_size: u32,
    receiver_window_scale: u32,
    sender_window_size: u32,
    sender_window_scale: u8,
    sender_mss: usize,
    rto: RtoCalculator,
    recv_queue: Vec<Segment>,
    received: Vec<u8>,
    unsent: Vec<u8>,
    unacked: Vec<u8>,
    bytes_acked: u64,
    state: CloseState,
}

/// The in-order bytes a segment contributes when the receiver expects `next`.
pub open spec fn accepted(seg: Segment, next: u32) -> Seq<u8> {
    if seg.header.seq_num == next {
        seg.payload@
    } else {
        Seq::empty()
    }
}

impl EstablishedSocket {
    pub closed spec fn local_spec(&self) -> Endpoint {
        self.local
    }

    pub closed spec fn remote_spec(&self) -> Endpoint {
        self.remote
    }

    pub closed spec fn receive_next_spec(&self) -> u32 {
        self.receive_next
    }

    pub closed spec fn send_next_spec(&self) -> u32 {
        self.send_next
    }

    pub closed spec fn send_unacked_spec(&self) -> u32 {
        self.send_unacked
    }

    pub closed spec fn mss_spec(&self) -> usize {
        self.sender_mss
    }

    pub closed spec fn sender_window_spec(&self) -> (u32, u8) {
        (self.sender_window_size, self.sender_window_scale)
    }

    pub closed spec fn receiver_window_spec(&self) -> (u32, u32) {
        (self.receiver_window_size, self.receiver_window_scale)
    }

    pub closed spec fn ack_delay_spec(&self) -> u64 {
        self.ack_delay_timeout
    }

    pub closed spec fn rto_spec(&self) -> RtoCalculator {
        self.rto
    }

    /// Inbound segments not yet processed, oldest first.
    pub closed spec fn queue_spec(&self) -> Seq<Segment> {
        self.recv_queue@
    }

    /// In-order bytes not yet read.
    pub closed spec fn received_spec(&self) -> Seq<u8> {
        self.received@
    }

    /// Bytes accepted by `send` and not yet handed out for transmission.
    pub closed spec fn unsent_spec(&self) -> Seq<u8> {
        self.unsent@
    }

    /// Bytes sent and not yet acknowledged, oldest first.
    pub closed spec fn unacked_spec(&self) -> Seq<u8> {
        self.unacked@
    }

    /// Bytes the peer has acknowledged since the connection was established.
    pub closed spec fn acked_spec(&self) -> u64 {
        self.bytes_acked
    }

    pub closed spec fn state_spec(&self) -> CloseState {
        self.state
    }

    pub open spec fn wf(&self) -> bool {
        self.rto_spec().wf()
    }

    /// Creates the control block of a connection that has just completed its
    /// handshake. `recv_queue` holds segments that arrived before it existed.
    pub fn new(
        local: Endpoint,
        remote: Endpoint,
        recv_queue: Vec<Segment>,
        receiver_seq_no: u32,
        ack_delay_timeout: u64,
        receiver_window_size: u32,
        receiver_window_scale: u32,
        sender_seq_no: u32,
        sender_window_size: u32,
        sender_window_scale: u8,
        sender_mss: usize,
    ) -> (r: Self)
        ensures
            r.wf(),
            r.local_spec() == local,
            r.remote_spec() == remote,
            r.queue_spec() == recv_queue@,
            r.receive_next_spec() == receiver_seq_no,
            r.send_next_spec() == sender_seq_no,
            r.send_unacked_spec() == sender_seq_no,
            r.ack_delay_spec() == ack_delay_timeout,
            r.receiver_window_spec() == (receiver_window_size, receiver_window_scale),
            r.sender_window_spec() == (sender_window_size, sender_window_scale),
            r.mss_spec() == sender_mss,
            r.received_spec().len() == 0,
            r.unsent_spec().len() == 0,
            r.acked_spec() == 0,
            r.unacked_spec().len() == 0,
            r.state_spec() == CloseState::Established,
            !r.rto_spec().sampled_spec(),
            r.rto_spec().rto_spec() == crate::rto::INITIAL_RTO,
    {
        EstablishedSocket {
            local,
            remote,
            receive_next: receiver_seq_no,
            send_next: sender_seq_no,
            send_unacked: sender_seq_no,
            ack_delay_timeout,
            receiver_window_size,
            receiver_window_scale,
            sender_window_size,
            sender_window_scale,
            sender_mss,
            rto: RtoCalculator::new(),
            recv_queue,
            received: Vec::new(),
            unsent: Vec::new(),
            unacked: Vec::new(),
            bytes_acked: 0,
            state: CloseState::Established,
        }
    }

    /// Appends an inbound segment to the receive queue.
    pub fn receive(&mut self, seg: Segment)
        ensures
            final(self).queue_spec() == old(self).queue_spec().push(seg),
            final(self).received_spec() == old(self).received_spec(),
            final(self).receive_next_spec() == old(self).receive_next_spec(),
            final(self).unsent_spec() == old(self).unsent_spec(),
            final(self).state_spec() == old(self).state_spec(),
            final(self).rto_spec() == old(self).rto_spec(),
    {
        self.recv_queue.push(seg);
    }

    /// Takes the oldest queued segment and processes it: a payload that starts at the
    /// next expected sequence number is appended to the readable bytes and advances it;
    /// any other payload is dropped for the peer to send again. Returns the segment
    /// taken, or `None` when the queue is empty.
    pub fn process_next(&mut self) -> (r: Option<Segment>)
        requires
            old(self).wf(),
        ensures
            final(self).wf(),
            old(self).queue_spec().len() == 0 ==> r is None && final(self).queue_spec()
                == old(self).queue_spec() && final(self).received_spec()
                == old(self).received_spec() && final(self).receive_next_spec()
                == old(self).receive_next_spec(),
            old(self).queue_spec().len() > 0 ==> ({
                let seg = old(self).queue_spec()[0];
                &&& r == Some(seg)
                &&& final(self).queue_spec() == old(self).queue_spec().drop_first()
                &&& final(self).received_spec() == old(self).received_spec() + accepted(
                    seg,
                    old(self).receive_next_spec(),
                )
                &&& final(self).receive_next_spec() == seq_add(
                    old(self).receive_next_spec(),
                    (accepted(seg, old(self).receive_next_spec()).len() % 0x1_0000_0000) as u32,
                )
            }),
            final(self).unsent_spec() == old(self).unsent_spec(),
            final(self).state_spec() == old(self).state_spec(),
            final(self).local_spec() == old(self).local_spec(),
            final(self).remote_spec() == old(self).remote_spec(),
    {
        if self.recv_queue.len() == 0 {
            return None;
        }
        let seg = self.recv_queue.remove(0);
        if seg.header.seq_num == self.receive_next {
            let n = seg.payload.len();
            let mut i: usize = 0;
            let ghost start = self.received@;
            while i < n
                invariant
                    n == seg.payload@.len(),
                    i <= n,
                    self.received@ == start + seg.payload@.take(i as int),
                    self.recv_queue@ == old(self).recv_queue@.drop_first(),
                    self.unsent@ == old(self).unsent@,
                    self.state == old(self).state,
                    self.rto == old(self).rto,
                    self.receive_next == old(self).receive_next,
                    self.local == old(self).local,
                    self.remote == old(self).remote,
                decreases n - i,
            {
                self.received.push(seg.payload[i]);
                assert(seg.payload@.take(i as int + 1) =~= seg.payload@.take(i as int).push(
                    seg.payload@[i as int],
                ));
                i = i + 1;
            }
            assert(seg.payload@.take(n as int) =~= seg.payload@);
            let len32: u32 = (n as u64 % 0x1_0000_0000u64) as u32;
            self.receive_next = seq_num_add(self.receive_next, len32);
        } else {
            assert(self.received@ + Seq::<u8>::empty() =~= self.received@);
        }
        Some(seg)
    }

    /// Queues bytes for transmission; refused once a close was requested.
    pub fn send(&mut self, buf: &Vec<u8>) -> (r: Result<(), Fail>)
        ensures
            old(self).state_spec() == CloseState::Established <==> r is Ok,
            r is Ok ==> final(self).unsent_spec() == old(self).unsent_spec() + buf@,
            r is Err ==> r == Err::<(), Fail>(Fail::Ignored) && final(self).unsent_spec()
                == old(self).unsent_spec(),
            final(self).queue_spec() == old(self).queue_spec(),
            final(self).received_spec() == old(self).received_spec(),
            final(self).state_spec() == old(self).state_spec(),
            final(self).rto_spec() == old(self).rto_spec(),
    {
        if self.state != CloseState::Established {
            return Err(Fail::Ignored);
        }
        let mut i: usize = 0;
        let ghost start = self.unsent@;
        while i < buf.len()
            invariant
                i <= buf@.len(),
                self.unsent@ == start + buf@.take(i as int),
                self.recv_queue@ == old(self).recv_queue@,
                self.received@ == old(self).received@,
                self.state == old(self).state,
                self.rto == old(self).rto,
            decreases buf@.len() - i,
        {
            self.unsent.push(buf[i]);
            assert(buf@.take(i as int + 1) =~= buf@.take(i as int).push(buf@[i as int]));
            i = i + 1;
        }
        assert(buf@.take(buf@.len() as int) =~= buf@);
        Ok(())
    }

    /// Reads up to `size` readable bytes (all of them when `size` is `None`), oldest
    /// first. Returns `None`, and changes nothing, when no byte is readable or `size`
    /// is zero: the reader waits for data.
    pub fn pop(&mut self, size: Option<usize>) -> (r: Option<Vec<u8>>)
        ensures
            ({
                let avail = old(self).received_spec();
                let want: int = match size {
                    Some(s) => if s < avail.len() {
                        s as int
                    } else {
                        avail.len() as int
                    },
                    None => avail.len() as int,
                };
                &&& want == 0 ==> r is None && final(self).received_spec() == avail
                &&& want > 0 ==> r is Some && r.unwrap()@ == avail.take(want)
                    && final(self).received_spec() == avail.skip(want)
            }),
            final(self).queue_spec() == old(self).queue_spec(),
            final(self).unsent_spec() == old(self).unsent_spec(),
            final(self).state_spec() == old(self).state_spec(),
            final(self).rto_spec() == old(self).rto_spec(),
            final(self).receive_next_spec() == old(self).receive_next_spec(),
    {
        let avail = self.received.len();
        let want: usize = match size {
            Some(s) => if s < avail {
                s
            } else {
                avail
            },
            None => avail,
        };
        if want == 0 {
            return None;
        }
        let mut rest = self.received.split_off(want);
        std::mem::swap(&mut self.received, &mut rest);
        Some(rest)
    }

    /// Requests a graceful close. A second request has no effect.
    pub fn close(&mut self) -> (r: Result<(), Fail>)
        ensures
            old(self).state_spec() == CloseState::Established ==> r is Ok,
            old(self).state_spec() == CloseState::Closing ==> r == Err::<(), Fail>(Fail::Ignored),
            final(self).state_spec() == CloseState::Closing,
            final(self).queue_spec() == old(self).queue_spec(),
            final(self).received_spec() == old(self).received_spec(),
            final(self).unsent_spec() == old(self).unsent_spec(),
            final(self).rto_spec() == old(self).rto_spec(),
    {
        if self.state == CloseState::Closing {
            return Err(Fail::Ignored);
        }
        self.state = CloseState::Closing;
        Ok(())
    }

    /// The peer's maximum segment size.
    pub fn remote_mss(&self) -> (r: usize)
        ensures
            r == self.mss_spec(),
    {
        self.sender_mss
    }

    /// The current retransmission timeout, in nanoseconds.
    pub fn current_rto(&self) -> (r: u64)
        ensures
            r == self.rto_spec().rto_spec(),
    {
        self.rto.rto()
    }

    /// The local and remote endpoints.
    pub fn endpoints(&self) -> (r: (Endpoint, Endpoint))
        ensures
            r == (self.local_spec(), self.remote_spec()),
    {
        (self.local, self.remote)
    }

    /// The peer's window: its advertised size after scaling, and the scale shift.
    pub fn remote_window(&self) -> (r: (u32, u8))
        ensures
            r == self.sender_window_spec(),
    {
        (self.sender_window_size, self.sender_window_scale)
    }

    /// The local receive window after scaling, and its scale shift.
    pub fn local_window(&self) -> (r: (u32, u32))
        ensures
            r == self.receiver_window_spec(),
    {
        (self.receiver_window_size, self.receiver_window_scale)
    }

    /// The next sequence number expected from the peer.
    pub fn receive_next(&self) -> (r: u32)
        ensures
            r == self.receive_next_spec(),
    {
        self.receive_next
    }

    /// The next sequence number this side will send.
    pub fn send_next(&self) -> (r: u32)
        ensures
            r == self.send_next_spec(),
    {
        self.send_next
    }

    /// Folds a round-trip measurement into the timeout estimator.
    pub fn record_rtt(&mut self, rtt: u64)
        requires
            old(self).wf(),
        ensures
            final(self).wf(),
            final(self).rto_spec().rto_spec() as int == crate::rto::rto_of(
                final(self).rto_spec().srtt_spec() as int,
                final(self).rto_spec().rttvar_spec() as int,
            ),
            final(self).queue_spec() == old(self).queue_spec(),
            final(self).received_spec() == old(self).received_spec(),
            final(self).unsent_spec() == old(self).unsent_spec(),
            final(self).state_spec() == old(self).state_spec(),
    {
        self.rto.add_sample(rtt);
    }
}

impl EstablishedSocket {
    /// Cuts the next data segment from the queued bytes: at most the peer's MSS and at
    /// most what its window leaves beyond the bytes in flight. It starts at the next
    /// send sequence number, which advances past it. `None` when nothing may be sent.
    pub fn transmit_next(&mut self) -> (r: Option<(TcpHeader, Vec<u8>)>)
        ensures
            ({
                let inflight = seq_sub(old(self).send_next_spec(), old(self).send_unacked_spec());
                let room = if inflight < old(self).sender_window_spec().0 {
                    old(self).sender_window_spec().0 - inflight
                } else {
                    0
                };
                let n = min3(old(self).unsent_spec().len() as int, old(self).mss_spec() as int, room as int);
                &&& n == 0 ==> r is None && final(self).unsent_spec() == old(self).unsent_spec()
                    && final(self).send_next_spec() == old(self).send_next_spec()
                &&& n > 0 ==> r is Some && r.unwrap().1@ == old(self).unsent_spec().take(n)
                    && final(self).unsent_spec() == old(self).unsent_spec().skip(n)
                    && r.unwrap().0.seq_num == old(self).send_next_spec()
                    && r.unwrap().0.ack && r.unwrap().0.ack_num == old(self).receive_next_spec()
                    && r.unwrap().0.src_port == old(self).local_spec().port
                    && r.unwrap().0.dst_port == old(self).remote_spec().port
                    && final(self).send_next_spec() == seq_add(old(self).send_next_spec(), n as u32)
                    && final(self).unacked_spec() == old(self).unacked_spec() + old(self).unsent_spec().take(n)
                &&& n == 0 ==> final(self).unacked_spec() == old(self).unacked_spec()
            }),
            final(self).send_unacked_spec() == old(self).send_unacked_spec(),
            final(self).queue_spec() == old(self).queue_spec(),
            final(self).received_spec() == old(self).received_spec(),
            final(self).state_spec() == old(self).state_spec(),
            final(self).rto_spec() == old(self).rto_spec(),
            final(self).acked_spec() == old(self).acked_spec(),
            final(self).sender_window_spec() == old(self).sender_window_spec(),
            final(self).mss_spec() == old(self).mss_spec(),
    {
        let inflight = self.send_next.wrapping_sub(self.send_unacked);
        let room: u32 = if inflight < self.sender_window_size {
            self.sender_window_size - inflight
        } else {
            0
        };
        let mut n: usize = self.unsent.len();
        if self.sender_mss < n {
            n = self.sender_mss;
        }
        if (room as usize) < n {
            n = room as usize;
        }
        if n == 0 {
            return None;
        }
        let rest = self.unsent.split_off(n);
        let mut payload = rest;
        std::mem::swap(&mut self.unsent, &mut payload);
        let mut i: usize = 0;
        let ghost start = self.unacked@;
        let ghost mid = *self;
        while i < payload.len()
            invariant
                i <= payload@.len(),
                self.unacked@ == start + payload@.take(i as int),
                self.unsent@ == mid.unsent@,
                self.recv_queue@ == mid.recv_queue@,
                self.received@ == mid.received@,
                self.send_next == mid.send_next,
                self.send_unacked == mid.send_unacked,
                self.receive_next == mid.receive_next,
                self.local == mid.local,
                self.remote == mid.remote,
                self.state == mid.state,
                self.rto == mid.rto,
                self.bytes_acked == mid.bytes_acked,
                self.sender_window_size == mid.sender_window_size,
                self.sender_window_scale == mid.sender_window_scale,
                self.sender_mss == mid.sender_mss,
            decreases payload@.len() - i,
        {
            self.unacked.push(payload[i]);
            assert(payload@.take(i as int + 1) =~= payload@.take(i as int).push(payload@[i as int]));
            i = i + 1;
        }
        assert(payload@.take(payload@.len() as int) =~= payload@);
        let mut hdr = TcpHeader::new(self.local.port, self.remote.port);
        hdr.seq_num = self.send_next;
        hdr.ack = true;
        hdr.ack_num = self.receive_next;
        self.send_next = seq_num_add(self.send_next, n as u32);
        Some((hdr, payload))
    }

    /// Takes in a cumulative acknowledgement. One that covers new bytes, no further than
    /// what was sent, moves the oldest unacknowledged number to it and counts those bytes
    /// (saturating); any other leaves everything as it was. Returns whether it counted.
    pub fn on_ack(&mut self, ack_num: u32) -> (r: bool)
        ensures
            ({
                let acked = seq_sub(ack_num, old(self).send_unacked_spec());
                let inflight = seq_sub(old(self).send_next_spec(), old(self).send_unacked_spec());
                &&& r == (0 < acked && acked <= inflight)
                &&& r ==> final(self).send_unacked_spec() == ack_num && final(self).acked_spec() as int
                    == if old(self).acked_spec() + acked > u64::MAX {
                    u64::MAX as int
                } else {
                    old(self).acked_spec() + acked
                }
                &&& r ==> final(self).unacked_spec() == old(self).unacked_spec().skip(
                    if acked < old(self).unacked_spec().len() {
                        acked as int
                    } else {
                        old(self).unacked_spec().len() as int
                    },
                )
                &&& !r ==> final(self).send_unacked_spec() == old(self).send_unacked_spec()
                    && final(self).acked_spec() == old(self).acked_spec()
                    && final(self).unacked_spec() == old(self).unacked_spec()
            }),
            final(self).send_next_spec() == old(self).send_next_spec(),
            final(self).unsent_spec() == old(self).unsent_spec(),
            final(self).queue_spec() == old(self).queue_spec(),
            final(self).received_spec() == old(self).received_spec(),
            final(self).state_spec() == old(self).state_spec(),
            final(self).rto_spec() == old(self).rto_spec(),
    {
        let acked = ack_num.wrapping_sub(self.send_unacked);
        let inflight = self.send_next.wrapping_sub(self.send_unacked);
        if 0 < acked && acked <= inflight {
            self.send_unacked = ack_num;
            self.bytes_acked = self.bytes_acked.saturating_add(acked as u64);
            let drop: usize = if (acked as usize) < self.unacked.len() {
                acked as usize
            } else {
                self.unacked.len()
            };
            let rest = self.unacked.split_off(drop);
            self.unacked = rest;
            true
        } else {
            false
        }
    }

    /// The retransmission timer fired: the timeout backs off, and the earliest
    /// unacknowledged bytes, at most one MSS of them, go out again from the oldest
    /// unacknowledged sequence number. `None` when nothing is unacknowledged.
    pub fn on_rto_timeout(&mut self) -> (r: Option<(TcpHeader, Vec<u8>)>)
        requires
            old(self).wf(),
        ensures
            final(self).wf(),
            final(self).rto_spec().rto_spec() as int == if 2 * old(self).rto_spec().rto_spec()
                > crate::rto::MAX_RTO {
                crate::rto::MAX_RTO as int
            } else {
                2 * old(self).rto_spec().rto_spec()
            },
            ({
                let u = old(self).unacked_spec();
                let n: int = if (old(self).mss_spec() as int) < u.len() {
                    old(self).mss_spec() as int
                } else {
                    u.len() as int
                };
                &&& n == 0 ==> r is None
                &&& n > 0 ==> r is Some && r.unwrap().1@ == u.take(n) && r.unwrap().0.seq_num
                    == old(self).send_unacked_spec() && r.unwrap().0.ack && r.unwrap().0.ack_num
                    == old(self).receive_next_spec()
            }),
            final(self).unacked_spec() == old(self).unacked_spec(),
            final(self).unsent_spec() == old(self).unsent_spec(),
            final(self).send_next_spec() == old(self).send_next_spec(),
            final(self).send_unacked_spec() == old(self).send_unacked_spec(),
            final(self).queue_spec() == old(self).queue_spec(),
            final(self).received_spec() == old(self).received_spec(),
            final(self).state_spec() == old(self).state_spec(),
    {
        self.rto.back_off();
        let n: usize = if self.sender_mss < self.unacked.len() {
            self.sender_mss
        } else {
            self.unacked.len()
        };
        if n == 0 {
            return None;
        }
        let mut payload: Vec<u8> = Vec::new();
        let mut i: usize = 0;
        while i < n
            invariant
                i <= n <= self.unacked@.len(),
                payload@ == self.unacked@.take(i as int),
            decreases n - i,
        {
            payload.push(self.unacked[i]);
            assert(self.unacked@.take(i as int + 1) =~= self.unacked@.take(i as int).push(self.unacked@[i as int]));
            i = i + 1;
        }
        let mut hdr = TcpHeader::new(self.local.port, self.remote.port);
        hdr.seq_num = self.send_unacked;
        hdr.ack = true;
        hdr.ack_num = self.receive_next;
        Some((hdr, payload))
    }

    /// Whether a flush of `nbytes` is complete: the peer has acknowledged at least that
    /// many bytes.
    pub fn push(&self, nbytes: usize) -> (r: bool)
        ensures
            r == (nbytes as int <= self.acked_spec()),
    {
        nbytes as u64 <= self.bytes_acked
    }
}

/// Difference of two sequence numbers modulo 2^32.
pub open spec fn seq_sub(a: u32, b: u32) -> u32 {
    ((a as int - b as int) % 0x1_0000_0000) as u32
}

/// The least of three integers.
pub open spec fn min3(a: int, b: int, c: int) -> int {
    let m = if a < b { a } else { b };
    if m < c { m } else { c }
}

/// The segments that repeated calls of `process_next` hand out, in order, until the
/// queue `q` is empty.
pub open spec fn observed(q: Seq<Segment>) -> Seq<Segment>
    decreases q.len(),
{
    if q.len() == 0 {
        Seq::empty()
    } else {
        seq![q[0]] + observed(q.drop_first())
    }
}

/// For a fixed remote, the control block observes segments in arrival order: `receive`
/// appends to the queue and `process_next` takes from its front, so draining a queue
/// built from `earlier` and then `arrivals` yields exactly `earlier` followed by
/// `arrivals`.
pub proof fn lemma_arrival_order(earlier: Seq<Segment>, arrivals: Seq<Segment>)
    ensures
        observed(earlier + arrivals) == earlier + arrivals,
    decreases earlier.len() + arrivals.len(),
{
    let q = earlier + arrivals;
    if q.len() > 0 {
        if earlier.len() > 0 {
            assert((earlier + arrivals).drop_first() =~= earlier.drop_first() + arrivals);
            lemma_arrival_order(earlier.drop_first(), arrivals);
            assert(seq![q[0]] + (earlier.drop_first() + arrivals) =~= q);
        } else {
            assert(q =~= arrivals);
            assert(q.drop_first() =~= Seq::<Segment>::empty() + arrivals.drop_first());
            lemma_arrival_order(Seq::empty(), arrivals.drop_first());
            assert(seq![q[0]] + (Seq::<Segment>::empty() + arrivals.drop_first()) =~= q);
        }
    }
}

} // verus!
