use vstd::prelude::*;

verus! {

/// A link-layer (Ethernet) address.
#[derive(Clone, Copy, Debug, PartialEq, Eq)]
pub struct MacAddress(pub [u8; 6]);

/// One resolution: a link-layer address and the time it was recorded.
#[derive(Clone, Copy, Debug)]
struct ArpEntry {
    ipv4: u32,
    mac: MacAddress,
    inserted_at: u64,
}

/// What the cache records for an address: the link-layer address and the time of insertion.
pub struct ArpRecord {
    pub mac: MacAddress,
    pub inserted_at: u64,
}

/// Whether a record inserted at `inserted_at` is still valid at `now` under `ttl`.
pub open spec fn live(inserted_at: u64, ttl: Option<u64>, now: u64) -> bool {
    match ttl {
        Some(t) => now as int <= inserted_at as int + t as int,
        None => true,
    }
}

/// The map that importing the pairs of `s` in order yields, each recorded at `now`.
pub open spec fn import_spec(s: Seq<(u32, MacAddress)>, now: u64) -> Map<u32, ArpRecord>
    decreases s.len(),
{
    if s.len() == 0 {
        Map::empty()
    } else {
        import_spec(s.drop_last(), now).insert(
            s.last().0,
            ArpRecord { mac: s.last().1, inserted_at: now },
        )
    }
}

/// Cache from IPv4 addresses to link-layer addresses with time-to-live eviction.
pub struct ArpCache {
    entries: Vec<ArpEntry>,
    ttl: Option<u64>,
    now: u64,
    disabled: bool,
}

impl View for ArpCache {
    type V = Map<u32, ArpRecord>;

    /// Each address recorded, with its record; expired records included.
    closed spec fn view(&self) -> Map<u32, ArpRecord> {
        Map::new(
            |ip: u32| exists|i: int| 0 <= i < self.entries@.len() && self.entries@[i].ipv4 == ip,
            |ip: u32|
                {
                    let i = choose|i: int|
                        0 <= i < self.entries@.len() && self.entries@[i].ipv4 == ip;
                    ArpRecord {
                        mac: self.entries@[i].mac,
                        inserted_at: self.entries@[i].inserted_at,
                    }
                },
        )
    }
}

impl ArpCache {
    /// Addresses are unique and no record is newer than the clock.
    pub closed spec fn wf(&self) -> bool {
        &&& forall|i: int, j: int|
            0 <= i < j < self.entries@.len() ==> self.entries@[i].ipv4 != self.entries@[j].ipv4
        &&& forall|i: int|
            0 <= i < self.entries@.len() ==> self.entries@[i].inserted_at <= self.now
    }

    pub closed spec fn ttl_spec(&self) -> Option<u64> {
        self.ttl
    }

    pub closed spec fn now_spec(&self) -> u64 {
        self.now
    }

    pub closed spec fn disabled_spec(&self) -> bool {
        self.disabled
    }

    /// What `get` reports for `ip`.
    pub open spec fn get_spec(&self, ip: u32) -> Option<MacAddress> {
        if !self.disabled_spec() && self@.contains_key(ip) && live(
            self@[ip].inserted_at,
            self.ttl_spec(),
            self.now_spec(),
        ) {
            Some(self@[ip].mac)
        } else {
            None
        }
    }

    proof fn lemma_view_at(&self, k: int)
        requires
            self.wf(),
            0 <= k < self.entries@.len(),
        ensures
            self@.contains_key(self.entries@[k].ipv4),
            self@[self.entries@[k].ipv4] == (ArpRecord {
                mac: self.entries@[k].mac,
                inserted_at: self.entries@[k].inserted_at,
            }),
    {
        let ip = self.entries@[k].ipv4;
        assert(self@.contains_key(ip));
        let i = choose|i: int| 0 <= i < self.entries@.len() && self.entries@[i].ipv4 == ip;
        assert(i == k);
    }

    /// Index of `ip` among the entries, if recorded.
    fn find(&self, ip: u32) -> (r: Option<usize>)
        requires
            self.wf(),
        ensures
            match r {
                Some(k) => k < self.entries@.len() && self.entries@[k as int].ipv4 == ip,
                None => !self@.contains_key(ip),
            },
    {
        let mut i: usize = 0;
        while i < self.entries.len()
            invariant
                i <= self.entries@.len(),
                forall|j: int| 0 <= j < i ==> self.entries@[j].ipv4 != ip,
            decreases self.entries@.len() - i,
        {
            if self.entries[i].ipv4 == ip {
                return Some(i);
            }
            i = i + 1;
        }
        None
    }

    /// Creates a cache whose clock reads `now`, with an optional time-to-live, an optional
    /// list of resolutions to import (each recorded at `now`; a later pair for the same
    /// address wins) and a flag that makes every lookup miss.
    pub fn new(
        now: u64,
        ttl: Option<u64>,
        values: Option<&Vec<(u32, MacAddress)>>,
        disable: bool,
    ) -> (r: Self)
        ensures
            r.wf(),
            r.now_spec() == now,
            r.ttl_spec() == ttl,
            r.disabled_spec() == disable,
            r@ == match values {
                Some(v) => import_spec(v@, now),
                None => Map::<u32, ArpRecord>::empty(),
            },
    {
        let mut cache = ArpCache { entries: Vec::new(), ttl, now, disabled: disable };
        assert(cache@ =~= Map::<u32, ArpRecord>::empty());
        if let Some(v) = values {
            let mut i: usize = 0;
            while i < v.len()
                invariant
                    i <= v@.len(),
                    cache.wf(),
                    cache.now == now,
                    cache.ttl == ttl,
                    cache.disabled == disable,
                    cache@ == import_spec(v@.take(i as int), now),
                decreases v@.len() - i,
            {
                let (ip, mac) = v[i];
                cache.insert(ip, mac);
                assert(v@.take(i as int + 1).drop_last() =~= v@.take(i as int));
                i = i + 1;
            }
            assert(v@.take(v@.len() as int) =~= v@);
        }
        cache
    }

    /// Records `ip -> mac` at the current time, replacing any earlier record of `ip`.
    pub fn insert(&mut self, ip: u32, mac: MacAddress)
        requires
            old(self).wf(),
        ensures
            final(self).wf(),
            final(self)@ == old(self)@.insert(
                ip,
                ArpRecord { mac, inserted_at: old(self).now_spec() },
            ),
            final(self).now_spec() == old(self).now_spec(),
            final(self).ttl_spec() == old(self).ttl_spec(),
            final(self).disabled_spec() == old(self).disabled_spec(),
    {
        let entry = ArpEntry { ipv4: ip, mac, inserted_at: self.now };
        let ghost pre = *self;
        match self.find(ip) {
            Some(k) => {
                self.entries.set(k, entry);
                proof {
                    assert forall|q: u32| #[trigger] self@.contains_key(q) <==> pre@.insert(
                        ip,
                        ArpRecord { mac, inserted_at: pre.now },
                    ).contains_key(q) by {
                        if self@.contains_key(q) {
                            let j = choose|j: int|
                                0 <= j < self.entries@.len() && self.entries@[j].ipv4 == q;
                            if j != k {
                                assert(pre.entries@[j].ipv4 == q);
                            }
                        }
                        if pre@.contains_key(q) && q != ip {
                            let j = choose|j: int|
                                0 <= j < pre.entries@.len() && pre.entries@[j].ipv4 == q;
                            assert(self.entries@[j].ipv4 == q);
                        }
                        if q == ip {
                            assert(self.entries@[k as int].ipv4 == q);
                        }
                    }
                    assert forall|q: u32| #[trigger] self@.contains_key(q) implies self@[q]
                        == pre@.insert(ip, ArpRecord { mac, inserted_at: pre.now })[q] by {
                        let j = choose|j: int|
                            0 <= j < self.entries@.len() && self.entries@[j].ipv4 == q;
                        self.lemma_view_at(j);
                        if j != k {
                            pre.lemma_view_at(j);
                        }
                    }
                    assert(self@ =~= pre@.insert(ip, ArpRecord { mac, inserted_at: pre.now }));
                }
            },
            None => {
                self.entries.push(entry);
                proof {
                    let n = pre.entries@.len() as int;
                    assert forall|q: u32| #[trigger] self@.contains_key(q) <==> pre@.insert(
                        ip,
                        ArpRecord { mac, inserted_at: pre.now },
                    ).contains_key(q) by {
                        if self@.contains_key(q) && q != ip {
                            let j = choose|j: int|
                                0 <= j < self.entries@.len() && self.entries@[j].ipv4 == q;
                            assert(pre.entries@[j].ipv4 == q);
                        }
                        if pre@.contains_key(q) {
                            let j = choose|j: int|
                                0 <= j < pre.entries@.len() && pre.entries@[j].ipv4 == q;
                            assert(self.entries@[j].ipv4 == q);
                        }
                        if q == ip {
                            assert(self.entries@[n].ipv4 == q);
                        }
                    }
                    assert forall|q: u32| #[trigger] self@.contains_key(q) implies self@[q]
                        == pre@.insert(ip, ArpRecord { mac, inserted_at: pre.now })[q] by {
                        let j = choose|j: int|
                            0 <= j < self.entries@.len() && self.entries@[j].ipv4 == q;
                        self.lemma_view_at(j);
                        if j != n {
                            pre.lemma_view_at(j);
                        }
                    }
                    assert(self@ =~= pre@.insert(ip, ArpRecord { mac, inserted_at: pre.now }));
                }
            },
        }
    }
    /// Looks `ip` up: its link-layer address if it is recorded, still valid, and the
    /// cache is not disabled.
    pub fn get(&self, ip: u32) -> (r: Option<MacAddress>)
        requires
            self.wf(),
        ensures
            r == self.get_spec(ip),
    {
        if self.disabled {
            return None;
        }
        match self.find(ip) {
            Some(k) => {
                proof {
                    self.lemma_view_at(k as int);
                }
                let e = self.entries[k];
                if self.is_live(e.inserted_at) {
                    Some(e.mac)
                } else {
                    None
                }
            },
            None => None,
        }
    }

    fn is_live(&self, inserted_at: u64) -> (r: bool)
        requires
            inserted_at <= self.now,
        ensures
            r == live(inserted_at, self.ttl, self.now),
    {
        match self.ttl {
            Some(t) => self.now - inserted_at <= t,
            None => true,
        }
    }

    /// Moves the cache's clock forward to `now`.
    pub fn advance_clock(&mut self, now: u64)
        requires
            old(self).wf(),
            old(self).now_spec() <= now,
        ensures
            final(self).wf(),
            final(self)@ == old(self)@,
            final(self).now_spec() == now,
            final(self).ttl_spec() == old(self).ttl_spec(),
            final(self).disabled_spec() == old(self).disabled_spec(),
    {
        self.now = now;
    }

    /// Removes every record.
    pub fn clear(&mut self)
        requires
            old(self).wf(),
        ensures
            final(self).wf(),
            final(self)@ == Map::<u32, ArpRecord>::empty(),
            final(self).now_spec() == old(self).now_spec(),
            final(self).ttl_spec() == old(self).ttl_spec(),
            final(self).disabled_spec() == old(self).disabled_spec(),
    {
        self.entries.clear();
        assert(self@ =~= Map::<u32, ArpRecord>::empty());
    }

    /// The records that are still valid, one pair per address.
    pub fn export(&self) -> (r: Vec<(u32, MacAddress)>)
        requires
            self.wf(),
        ensures
            forall|ip: u32, mac: MacAddress|
                r@.contains((ip, mac)) <==> (self@.contains_key(ip) && live(
                    self@[ip].inserted_at,
                    self.ttl_spec(),
                    self.now_spec(),
                ) && self@[ip].mac == mac),
            forall|i: int, j: int| 0 <= i < j < r@.len() ==> r@[i].0 != r@[j].0,
    {
        let mut out: Vec<(u32, MacAddress)> = Vec::new();
        let ghost mut src: Seq<int> = Seq::empty();
        let mut i: usize = 0;
        while i < self.entries.len()
            invariant
                self.wf(),
                i <= self.entries@.len(),
                src.len() == out@.len(),
                forall|k: int|
                    0 <= k < out@.len() ==> 0 <= #[trigger] src[k] < i && self.entries@[src[k]].ipv4
                        == out@[k].0 && self.entries@[src[k]].mac == out@[k].1 && live(
                        self.entries@[src[k]].inserted_at,
                        self.ttl,
                        self.now,
                    ),
                forall|j: int|
                    0 <= j < i && live(self.entries@[j].inserted_at, self.ttl, self.now)
                        ==> out@.contains((self.entries@[j].ipv4, self.entries@[j].mac)),
                forall|a: int, b: int| 0 <= a < b < out@.len() ==> out@[a].0 != out@[b].0,
            decreases self.entries@.len() - i,
        {
            let e = self.entries[i];
            if self.is_live(e.inserted_at) {
                proof {
                    assert forall|k: int| 0 <= k < out@.len() implies out@[k].0 != e.ipv4 by {
                        assert(src[k] != i);
                    }
                }
                let ghost prev = out@;
                out.push((e.ipv4, e.mac));
                proof {
                    src = src.push(i as int);
                    let n = out@.len() - 1;
                    assert(out@[n] == (e.ipv4, e.mac));
                    assert forall|k: int| 0 <= k < out@.len() - 1 implies out@[k] == prev[k] by {}
                    assert forall|j: int|
                        0 <= j < i + 1 && live(self.entries@[j].inserted_at, self.ttl, self.now)
                            implies out@.contains((self.entries@[j].ipv4, self.entries@[j].mac)) by {
                        if j == i {
                            assert(out@[n] == (self.entries@[j].ipv4, self.entries@[j].mac));
                        } else {
                            assert(prev.contains((self.entries@[j].ipv4, self.entries@[j].mac)));
                            let k = choose|k: int|
                                0 <= k < prev.len() && prev[k] == (
                                    self.entries@[j].ipv4,
                                    self.entries@[j].mac,
                                );
                            assert(out@[k] == prev[k]);
                        }
                    }
                }
            }
            i = i + 1;
        }
        proof {
            assert forall|ip: u32, mac: MacAddress|
                out@.contains((ip, mac)) <==> (self@.contains_key(ip) && live(
                    self@[ip].inserted_at,
                    self.ttl_spec(),
                    self.now_spec(),
                ) && self@[ip].mac == mac) by {
                if out@.contains((ip, mac)) {
                    let k = choose|k: int| 0 <= k < out@.len() && out@[k] == (ip, mac);
                    self.lemma_view_at(src[k]);
                }
                if self@.contains_key(ip) {
                    let j = choose|j: int|
                        0 <= j < self.entries@.len() && self.entries@[j].ipv4 == ip;
                    self.lemma_view_at(j);
                }
            }
        }
        out
    }
}

/// A record inserted at `t` under a time-to-live `ttl` is found at every clock reading
/// from `t` up to `t + ttl`, and missing at every reading after `t + ttl`.
pub proof fn lemma_ttl_eviction(cache: ArpCache, ip: u32, mac: MacAddress, ttl: u64, t: u64)
    requires
        !cache.disabled_spec(),
        cache.ttl_spec() == Some(ttl),
        cache@.contains_key(ip),
        cache@[ip] == (ArpRecord { mac, inserted_at: t }),
        t <= cache.now_spec(),
    ensures
        cache.now_spec() <= t + ttl ==> cache.get_spec(ip) == Some(mac),
        cache.now_spec() > t + ttl ==> cache.get_spec(ip) is None,
{
}

/// Every resolution imported at construction, into a cache that is not disabled, is
/// among the exported pairs while its time-to-live has not passed.
pub proof fn lemma_import_export(
    values: Seq<(u32, MacAddress)>,
    cache: ArpCache,
    exported: Seq<(u32, MacAddress)>,
    ip: u32,
    mac: MacAddress,
)
    requires
        forall|i: int, j: int| 0 <= i < j < values.len() ==> values[i].0 != values[j].0,
        values.contains((ip, mac)),
        !cache.disabled_spec(),
        cache@ == import_spec(values, cache.now_spec()),
        forall|q: u32, m: MacAddress|
            exported.contains((q, m)) <==> (cache@.contains_key(q) && live(
                cache@[q].inserted_at,
                cache.ttl_spec(),
                cache.now_spec(),
            ) && cache@[q].mac == m),
    ensures
        exported.contains((ip, mac)),
{
    lemma_import_contains(values, cache.now_spec(), ip, mac);
}

/// Importing pairs with distinct addresses records each of them.
proof fn lemma_import_contains(values: Seq<(u32, MacAddress)>, now: u64, ip: u32, mac: MacAddress)
    requires
        forall|i: int, j: int| 0 <= i < j < values.len() ==> values[i].0 != values[j].0,
        values.contains((ip, mac)),
    ensures
        import_spec(values, now).contains_key(ip),
        import_spec(values, now)[ip] == (ArpRecord { mac, inserted_at: now }),
    decreases values.len(),
{
    let k = choose|k: int| 0 <= k < values.len() && values[k] == (ip, mac);
    if k != values.len() - 1 {
        let rest = values.drop_last();
        assert(rest[k] == (ip, mac));
        lemma_import_contains(rest, now, ip, mac);
        assert(values.last().0 != ip);
    }
}

} // verus!
