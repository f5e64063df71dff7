use vstd::prelude::*;

verus! {

/// An IPv4 socket address: the address as a 32-bit number and a port.
#[derive(Clone, Copy, Debug, PartialEq, Eq, Hash, Structural)]
pub struct Endpoint {
    pub ip: u32,
    pub port: u16,
}

impl Endpoint {
    pub fn new(ip: u32, port: u16) -> (r: Self)
        ensures
            r.ip == ip,
            r.port == port,
    {
        Endpoint { ip, port }
    }
}

/// The initial sequence number for a connection between `local` and `remote`, drawn by
/// a generator seeded with `nonce` that has handed out `counter` numbers before.
pub open spec fn isn_spec(nonce: u32, counter: u32, local: Endpoint, remote: Endpoint) -> u32 {
    nonce.wrapping_add(counter.wrapping_mul(0x0001_0003)).wrapping_add(local.ip).wrapping_add(
        remote.ip,
    ).wrapping_add((local.port as u32).wrapping_mul(0x1_0000)).wrapping_add(remote.port as u32)
}

/// Generator of initial sequence numbers: a seed mixed with both endpoints and a
/// counter that advances on every draw.
pub struct IsnGenerator {
    nonce: u32,
    counter: u32,
}

impl IsnGenerator {
    pub closed spec fn nonce_spec(&self) -> u32 {
        self.nonce
    }

    pub closed spec fn counter_spec(&self) -> u32 {
        self.counter
    }

    pub fn new(nonce: u32) -> (r: Self)
        ensures
            r.nonce_spec() == nonce,
            r.counter_spec() == 0,
    {
        IsnGenerator { nonce, counter: 0 }
    }

    /// Draws the next initial sequence number for `local` and `remote`.
    pub fn generate(&mut self, local: &Endpoint, remote: &Endpoint) -> (r: u32)
        ensures
            r == isn_spec(old(self).nonce_spec(), old(self).counter_spec(), *local, *remote),
            final(self).nonce_spec() == old(self).nonce_spec(),
            final(self).counter_spec() == old(self).counter_spec().wrapping_add(1),
    {
        let c = self.counter.wrapping_mul(0x0001_0003);
        let p = (local.port as u32).wrapping_mul(0x1_0000);
        let r = self.nonce.wrapping_add(c).wrapping_add(local.ip).wrapping_add(remote.ip)
            .wrapping_add(p).wrapping_add(remote.port as u32);
        self.counter = self.counter.wrapping_add(1);
        r
    }
}

} // verus!
