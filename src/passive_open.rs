use vstd::prelude::*;
use crate::config::TcpConfig;
use crate::endpoint::{isn_spec, Endpoint, IsnGenerator};
use crate::established::EstablishedSocket;
use crate::fail::Fail;
use crate::handshake::Handshake;
use crate::tcp::{make_rst, TcpHeader};

verus! {

/// States of a listening socket.
#[derive(Clone, Copy, Debug, PartialEq, Eq, Structural)]
pub enum State {
    /// Accepting new connections.
    Listening,
    /// Closed: inbound segments are no longer looked at.
    Closed,
}

/// What the listener decided about one inbound segment.
#[derive(Debug)]
pub enum PassiveAction {
    /// The listener is closed; the segment is dropped.
    Drop,
    /// The segment belongs to the handshake or connection already held for this remote:
    /// hand it to that connection's receive queue.
    Forward(Endpoint),
    /// Send this reset to the remote's address and drop the segment.
    Reset(u32, TcpHeader),
    /// A new handshake was admitted: send its SYN+ACK and run it.
    Handshake(Handshake, TcpHeader),
}

/// How a segment with acceptable SYN flags fares against the in-flight table.
#[derive(Clone, Copy, Debug, PartialEq, Eq, Structural)]
pub enum SynOutcome {
    Forwarded,
    Reset,
    Admitted,
}

/// Whether the flags open a connection: SYN set, ACK and RST clear.
pub open spec fn opens_connection(hdr: TcpHeader) -> bool {
    hdr.syn && !hdr.ack && !hdr.rst
}

/// The outcome of a segment from `remote` with flags `opens`, given the in-flight
/// remotes and the backlog bound.
pub open spec fn classify(inflight: Seq<Endpoint>, max_backlog: usize, remote: Endpoint, opens: bool) -> SynOutcome {
    if inflight.contains(remote) {
        SynOutcome::Forwarded
    } else if !opens || inflight.len() >= max_backlog {
        SynOutcome::Reset
    } else {
        SynOutcome::Admitted
    }
}

/// The in-flight remotes after that outcome.
pub open spec fn after(inflight: Seq<Endpoint>, max_backlog: usize, remote: Endpoint, opens: bool) -> Seq<Endpoint> {
    if classify(inflight, max_backlog, remote, opens) == SynOutcome::Admitted {
        inflight.push(remote)
    } else {
        inflight
    }
}

/// Feeds SYNs from `remotes`, in order, to a listener whose in-flight table starts as
/// `inflight`: the outcomes and the final table.
pub open spec fn run_syns(inflight: Seq<Endpoint>, max_backlog: usize, remotes: Seq<Endpoint>) -> (Seq<SynOutcome>, Seq<Endpoint>)
    decreases remotes.len(),
{
    if remotes.len() == 0 {
        (Seq::empty(), inflight)
    } else {
        let (outs, table) = run_syns(inflight, max_backlog, remotes.drop_last());
        (outs.push(classify(table, max_backlog, remotes.last(), true)), after(table, max_backlog, remotes.last(), true))
    }
}

/// From an empty table, SYNs from distinct remotes are admitted while the table is
/// below the backlog: with `k` or fewer of them all are admitted and the table holds
/// exactly them.
proof fn lemma_accept_prefix(max_backlog: usize, remotes: Seq<Endpoint>)
    requires
        remotes.len() <= max_backlog,
        forall|i: int, j: int| 0 <= i < j < remotes.len() ==> remotes[i] != remotes[j],
    ensures
        run_syns(Seq::empty(), max_backlog, remotes).1 == remotes,
        run_syns(Seq::empty(), max_backlog, remotes).0 == Seq::new(remotes.len(), |i: int| SynOutcome::Admitted),
    decreases remotes.len(),
{
    if remotes.len() > 0 {
        let prev = remotes.drop_last();
        lemma_accept_prefix(max_backlog, prev);
        assert(!prev.contains(remotes.last())) by {
            if prev.contains(remotes.last()) {
                let i = choose|i: int| 0 <= i < prev.len() && prev[i] == remotes.last();
                assert(remotes[i] == remotes[remotes.len() - 1]);
            }
        }
        assert(prev.push(remotes.last()) =~= remotes);
        assert(run_syns(Seq::empty(), max_backlog, remotes).0 =~= Seq::new(remotes.len(), |i: int| SynOutcome::Admitted));
    }
}

/// With a backlog of `k`, `k + 1` SYNs from distinct remotes and no ACKs: the first
/// `k` are admitted, the last is answered by a reset, and `k` remain in flight.
pub proof fn lemma_backlog_bound(k: usize, remotes: Seq<Endpoint>)
    requires
        remotes.len() == k + 1,
        forall|i: int, j: int| 0 <= i < j < remotes.len() ==> remotes[i] != remotes[j],
    ensures
        run_syns(Seq::empty(), k, remotes).1.len() == k,
        run_syns(Seq::empty(), k, remotes).0.len() == k + 1,
        forall|i: int| 0 <= i < k ==> run_syns(Seq::empty(), k, remotes).0[i] == SynOutcome::Admitted,
        run_syns(Seq::empty(), k, remotes).0[k as int] == SynOutcome::Reset,
{
    let prev = remotes.drop_last();
    lemma_accept_prefix(k, prev);
    assert(!prev.contains(remotes.last())) by {
        if prev.contains(remotes.last()) {
            let i = choose|i: int| 0 <= i < prev.len() && prev[i] == remotes.last();
            assert(remotes[i] == remotes[remotes.len() - 1]);
        }
    }
}

/// A listening socket: the in-flight remotes (each with a handshake or connection of
/// its own), the queue of handshake results awaiting accept, the backlog bound and the
/// generator of initial sequence numbers.
pub struct PassiveSocket {
    state: State,
    local: Endpoint,
    max_backlog: usize,
    inflight: Vec<Endpoint>,
    ready: Vec<Result<EstablishedSocket, Fail>>,
    isn_generator: IsnGenerator,
    tcp_config: TcpConfig,
}

impl PassiveSocket {
    pub closed spec fn state_spec(&self) -> State {
        self.state
    }

    pub closed spec fn local_spec(&self) -> Endpoint {
        self.local
    }

    pub closed spec fn max_backlog_spec(&self) -> usize {
        self.max_backlog
    }

    /// Remotes with a handshake or connection, in admission order.
    pub closed spec fn inflight_spec(&self) -> Seq<Endpoint> {
        self.inflight@
    }

    /// Handshake results not yet accepted, oldest first.
    pub closed spec fn ready_spec(&self) -> Seq<Result<EstablishedSocket, Fail>> {
        self.ready@
    }

    pub closed spec fn isn_spec_gen(&self) -> IsnGenerator {
        self.isn_generator
    }

    pub closed spec fn config_spec(&self) -> TcpConfig {
        self.tcp_config
    }

    /// Remotes are distinct, at most `max_backlog` of them, and the configuration is valid.
    pub open spec fn wf(&self) -> bool {
        &&& forall|i: int, j: int|
            0 <= i < j < self.inflight_spec().len() ==> self.inflight_spec()[i]
                != self.inflight_spec()[j]
        &&& self.inflight_spec().len() <= self.max_backlog_spec()
        &&& self.config_spec().wf()
    }

    /// A listener on `local` with room for `max_backlog` in-flight remotes, whose
    /// initial sequence numbers are seeded with `nonce`.
    pub fn new(local: Endpoint, max_backlog: usize, tcp_config: TcpConfig, nonce: u32) -> (r: Self)
        requires
            tcp_config.wf(),
        ensures
            r.wf(),
            r.state_spec() == State::Listening,
            r.local_spec() == local,
            r.max_backlog_spec() == max_backlog,
            r.inflight_spec().len() == 0,
            r.ready_spec().len() == 0,
            r.isn_spec_gen().nonce_spec() == nonce,
            r.isn_spec_gen().counter_spec() == 0,
            r.config_spec() == tcp_config,
    {
        PassiveSocket {
            state: State::Listening,
            local,
            max_backlog,
            inflight: Vec::new(),
            ready: Vec::new(),
            isn_generator: IsnGenerator::new(nonce),
            tcp_config,
        }
    }

    /// The address the socket is bound to.
    pub fn endpoint(&self) -> (r: Endpoint)
        ensures
            r == self.local_spec(),
    {
        self.local
    }

    fn find(&self, remote: &Endpoint) -> (r: bool)
        ensures
            r == self.inflight_spec().contains(*remote),
    {
        let mut i: usize = 0;
        while i < self.inflight.len()
            invariant
                i <= self.inflight@.len(),
                forall|j: int| 0 <= j < i ==> self.inflight@[j] != *remote,
            decreases self.inflight@.len() - i,
        {
            if self.inflight[i] == *remote {
                return true;
            }
            i = i + 1;
        }
        false
    }

    /// Decides what to do with a segment from `src_ip` carrying `hdr` and
    /// `payload_len` payload bytes. A closed listener drops it. A segment from an
    /// in-flight remote is forwarded to it. Otherwise a segment that is not a bare SYN,
    /// or one that finds the backlog full, is answered by a reset. A SYN within the
    /// backlog draws an initial sequence number and starts a handshake, and the remote
    /// is recorded in flight; a payload on the SYN is ignored.
    pub fn on_segment(&mut self, src_ip: u32, hdr: &TcpHeader, payload_len: u32) -> (r: PassiveAction)
        requires
            old(self).wf(),
        ensures
            final(self).wf(),
            final(self).state_spec() == old(self).state_spec(),
            final(self).local_spec() == old(self).local_spec(),
            final(self).max_backlog_spec() == old(self).max_backlog_spec(),
            final(self).ready_spec() == old(self).ready_spec(),
            final(self).config_spec() == old(self).config_spec(),
            final(self).isn_spec_gen().nonce_spec() == old(self).isn_spec_gen().nonce_spec(),
            !(r is Handshake) ==> final(self).isn_spec_gen() == old(self).isn_spec_gen(),
            old(self).state_spec() == State::Closed ==> r is Drop && final(self).inflight_spec()
                == old(self).inflight_spec(),
            old(self).state_spec() == State::Listening ==> ({
                let remote = Endpoint { ip: src_ip, port: hdr.src_port };
                let opens = opens_connection(*hdr);
                let outcome = classify(old(self).inflight_spec(), old(self).max_backlog_spec(), remote, opens);
                &&& final(self).inflight_spec() == after(
                    old(self).inflight_spec(),
                    old(self).max_backlog_spec(),
                    remote,
                    opens,
                )
                &&& outcome == SynOutcome::Forwarded ==> r == PassiveAction::Forward(remote)
                &&& outcome == SynOutcome::Reset ==> match r {
                    PassiveAction::Reset(ip, rst) => ip == src_ip && rst.src_port
                        == old(self).local_spec().port && rst.dst_port == hdr.src_port && rst.rst
                        && rst.ack && (hdr.ack ==> rst.seq_num == hdr.ack_num && rst.ack_num
                        == crate::tcp::seq_add(hdr.ack_num, 1)) && (!hdr.ack ==> rst.seq_num == 0
                        && rst.ack_num as int == (hdr.seq_num as int + crate::tcp::segment_length(
                        *hdr,
                        payload_len,
                    )) % 0x1_0000_0000),
                    _ => false,
                }
                &&& outcome == SynOutcome::Admitted ==> match r {
                    PassiveAction::Handshake(h, syn_ack) => {
                        &&& h.wf()
                        &&& h.remote_spec() == remote
                        &&& h.local_spec() == old(self).local_spec()
                        &&& h.remote_isn_spec() == hdr.seq_num
                        &&& h.local_isn_spec() == isn_spec(
                            old(self).isn_spec_gen().nonce_spec(),
                            old(self).isn_spec_gen().counter_spec(),
                            old(self).local_spec(),
                            remote,
                        )
                        &&& h.retries_left_spec() == old(self).config_spec().retries_spec()
                        &&& h.config_spec() == old(self).config_spec()
                        &&& final(self).isn_spec_gen().counter_spec() == old(self).isn_spec_gen().counter_spec().wrapping_add(1)
                        &&& syn_ack.syn && syn_ack.ack && syn_ack.seq_num == h.local_isn_spec()
                        &&& syn_ack.ack_num == crate::tcp::seq_add(hdr.seq_num, 1)
                    },
                    _ => false,
                }
            }),
    {
        if self.state == State::Closed {
            return PassiveAction::Drop;
        }
        let remote = Endpoint { ip: src_ip, port: hdr.src_port };
        if self.find(&remote) {
            return PassiveAction::Forward(remote);
        }
        if !hdr.syn || hdr.ack || hdr.rst || self.inflight.len() >= self.max_backlog {
            return PassiveAction::Reset(src_ip, make_rst(self.local.port, remote.port, hdr, payload_len));
        }
        let local = self.local;
        let local_isn = self.isn_generator.generate(&local, &remote);
        let h = Handshake::new(local, remote, hdr, local_isn, self.tcp_config);
        let syn_ack = h.syn_ack();
        let ghost pre = self.inflight@;
        self.inflight.push(remote);
        proof {
            assert forall|i: int, j: int|
                0 <= i < j < self.inflight@.len() implies self.inflight@[i] != self.inflight@[j] by {
                if j == pre.len() {
                    assert(pre[i] == self.inflight@[i]);
                }
            }
        }
        PassiveAction::Handshake(h, syn_ack)
    }

    /// A connection that came from this listener finished closing: its remote leaves
    /// the in-flight table. Returns whether it was there.
    pub fn on_connection_closed(&mut self, remote: &Endpoint) -> (r: bool)
        requires
            old(self).wf(),
        ensures
            final(self).wf(),
            r == old(self).inflight_spec().contains(*remote),
            final(self).inflight_spec() == old(self).inflight_spec().filter(|e: Endpoint| e != *remote),
            final(self).state_spec() == old(self).state_spec(),
            final(self).local_spec() == old(self).local_spec(),
            final(self).max_backlog_spec() == old(self).max_backlog_spec(),
            final(self).ready_spec() == old(self).ready_spec(),
            final(self).config_spec() == old(self).config_spec(),
    {
        let ghost pre = self.inflight@;
        let mut kept: Vec<Endpoint> = Vec::new();
        let mut found = false;
        let mut i: usize = 0;
        while i < self.inflight.len()
            invariant
                i <= pre.len(),
                self.inflight@ == pre,
                kept@ == pre.take(i as int).filter(|e: Endpoint| e != *remote),
                found == pre.take(i as int).contains(*remote),
                kept@.len() <= i,
                forall|a: int| 0 <= a < kept@.len() ==> pre.take(i as int).contains(#[trigger] kept@[a]),
                forall|a: int, b: int| 0 <= a < b < kept@.len() ==> kept@[a] != kept@[b],
                forall|a: int, b: int| 0 <= a < b < pre.len() ==> pre[a] != pre[b],
            decreases pre.len() - i,
        {
            let e = self.inflight[i];
            assert(pre.take(i as int + 1).drop_last() =~= pre.take(i as int));
            reveal(Seq::filter);
            if e == *remote {
                found = true;
            } else {
                proof {
                    assert forall|a: int| 0 <= a < kept@.len() implies kept@[a] != e by {
                        let j = choose|j: int| 0 <= j < i && pre.take(i as int)[j] == kept@[a];
                        assert(pre[j] == kept@[a]);
                    }
                }
                kept.push(e);
                proof {
                    assert forall|a: int| 0 <= a < kept@.len() implies pre.take(i as int + 1).contains(#[trigger] kept@[a]) by {
                        if a < kept@.len() - 1 {
                            let j = choose|j: int| 0 <= j < i && pre.take(i as int)[j] == kept@[a];
                            assert(pre.take(i as int + 1)[j] == kept@[a]);
                        } else {
                            assert(pre.take(i as int + 1)[i as int] == kept@[a]);
                        }
                    }
                }
            }
            proof {
                if e == *remote {
                    assert(pre.take(i as int + 1)[i as int] == e);
                    assert forall|a: int| 0 <= a < kept@.len() implies pre.take(i as int + 1).contains(#[trigger] kept@[a]) by {
                        let j = choose|j: int| 0 <= j < i && pre.take(i as int)[j] == kept@[a];
                        assert(pre.take(i as int + 1)[j] == kept@[a]);
                    }
                } else if found {
                    let j = choose|j: int| 0 <= j < i && pre.take(i as int)[j] == *remote;
                    assert(pre.take(i as int + 1)[j] == *remote);
                } else {
                    assert forall|j: int| 0 <= j < i + 1 implies #[trigger] pre.take(i as int + 1)[j] != *remote by {
                        if j < i {
                            assert(pre.take(i as int)[j] == pre.take(i as int + 1)[j]);
                        }
                    }
                }
            }
            i = i + 1;
        }
        assert(pre.take(pre.len() as int) =~= pre);
        self.inflight = kept;
        found
    }

    /// Records the outcome of a handshake for a later accept.
    pub fn push_ready(&mut self, result: Result<EstablishedSocket, Fail>)
        requires
            old(self).wf(),
        ensures
            final(self).wf(),
            final(self).ready_spec() == old(self).ready_spec().push(result),
            final(self).inflight_spec() == old(self).inflight_spec(),
            final(self).state_spec() == old(self).state_spec(),
            final(self).local_spec() == old(self).local_spec(),
            final(self).max_backlog_spec() == old(self).max_backlog_spec(),
            final(self).config_spec() == old(self).config_spec(),
    {
        self.ready.push(result);
    }

    /// Takes the oldest handshake outcome: an established connection or the error that
    /// ended its handshake. `None` when none is waiting.
    pub fn do_accept(&mut self) -> (r: Option<Result<EstablishedSocket, Fail>>)
        requires
            old(self).wf(),
        ensures
            final(self).wf(),
            old(self).ready_spec().len() == 0 ==> r is None && final(self).ready_spec()
                == old(self).ready_spec(),
            old(self).ready_spec().len() > 0 ==> r == Some(old(self).ready_spec()[0])
                && final(self).ready_spec() == old(self).ready_spec().drop_first(),
            final(self).inflight_spec() == old(self).inflight_spec(),
            final(self).state_spec() == old(self).state_spec(),
            final(self).local_spec() == old(self).local_spec(),
            final(self).max_backlog_spec() == old(self).max_backlog_spec(),
            final(self).config_spec() == old(self).config_spec(),
    {
        if self.ready.len() == 0 {
            None
        } else {
            Some(self.ready.remove(0))
        }
    }

    /// Stops listening.
    pub fn close(&mut self) -> (r: Result<(), Fail>)
        requires
            old(self).wf(),
        ensures
            final(self).wf(),
            r is Ok,
            final(self).state_spec() == State::Closed,
            final(self).inflight_spec() == old(self).inflight_spec(),
            final(self).ready_spec() == old(self).ready_spec(),
            final(self).local_spec() == old(self).local_spec(),
            final(self).max_backlog_spec() == old(self).max_backlog_spec(),
            final(self).config_spec() == old(self).config_spec(),
    {
        self.state = State::Closed;
        Ok(())
    }

    /// The number of remotes in flight.
    pub fn inflight_len(&self) -> (r: usize)
        ensures
            r == self.inflight_spec().len(),
    {
        self.inflight.len()
    }
}

} // verus!
