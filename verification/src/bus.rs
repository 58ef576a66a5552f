//! The actuator bus: which transport a port name calls for, and what a scan
//! of the bus found and missed.

use vstd::prelude::*;

verus! {

/// The transport behind a port.
#[derive(Clone, Copy, Debug, PartialEq, Eq, Structural)]
pub enum PortKind {
    /// A CH341 USB-to-CAN adapter on a serial device (`/dev/tty...`).
    Ch341,
    /// A SocketCAN network interface (`can...`).
    SocketCan,
}

/// Whether `s` begins with `prefix`.
pub fn starts_with(s: &str, prefix: &str) -> (b: bool)
    ensures
        b == prefix@.is_prefix_of(s@),
{
    let n = s.unicode_len();
    let p = prefix.unicode_len();
    if p > n {
        return false;
    }
    let mut i: usize = 0;
    while i < p
        invariant
            p == prefix@.len(),
            n == s@.len(),
            p <= n,
            0 <= i <= p,
            forall|k: int| 0 <= k < i ==> prefix@[k] == s@[k],
        decreases p - i,
    {
        if prefix.get_char(i) != s.get_char(i) {
            assert(prefix@[i as int] != s@.subrange(0, p as int)[i as int]);
            return false;
        }
        i += 1;
    }
    assert(prefix@ =~= s@.subrange(0, p as int));
    true
}

/// The transport that a port name calls for, if any.
pub open spec fn port_kind_of(port: Seq<char>) -> Option<PortKind> {
    if "/dev/tty"@.is_prefix_of(port) {
        Some(PortKind::Ch341)
    } else if "can"@.is_prefix_of(port) {
        Some(PortKind::SocketCan)
    } else {
        None
    }
}

/// The transport for `port`: a serial adapter for `/dev/tty...`, SocketCAN
/// for `can...`; `None` for any other name, which is an invalid port.
pub fn classify_port(port: &str) -> (k: Option<PortKind>)
    ensures
        k == port_kind_of(port@),
        "/dev/tty"@.is_prefix_of(port@) ==> k == Some(PortKind::Ch341),
        "can"@.is_prefix_of(port@) && !"/dev/tty"@.is_prefix_of(port@) ==> k == Some(PortKind::SocketCan),
        !"can"@.is_prefix_of(port@) && !"/dev/tty"@.is_prefix_of(port@) ==> k is None,
{
    if starts_with(port, "/dev/tty") {
        Some(PortKind::Ch341)
    } else if starts_with(port, "can") {
        Some(PortKind::SocketCan)
    } else {
        None
    }
}

/// Whether `v` holds `x`.
pub fn contains_id(v: &Vec<u8>, x: u8) -> (b: bool)
    ensures
        b == v@.contains(x),
{
    let mut i: usize = 0;
    while i < v.len()
        invariant
            0 <= i <= v.len(),
            forall|k: int| 0 <= k < i ==> v@[k] != x,
        decreases v.len() - i,
    {
        if v[i] == x {
            return true;
        }
        i += 1;
    }
    false
}

/// The IDs of `discovered` that are not in `configured`, in order.
pub open spec fn unknown_ids(discovered: Seq<u8>, configured: Seq<u8>) -> Seq<u8> {
    discovered.filter(|d: u8| !configured.contains(d))
}

/// Whether some scan of `scans` reported `id`.
pub open spec fn seen_in(scans: Seq<Seq<u8>>, id: u8) -> bool {
    exists|k: int| 0 <= k < scans.len() && #[trigger] scans[k].contains(id)
}

/// Which of the configured motors the scans of the bus have found so far.
pub struct DiscoveryTracker {
    configured: Vec<u8>,
    found: Vec<bool>,
    scans: Ghost<Seq<Seq<u8>>>,
}

impl DiscoveryTracker {
    /// The configured motor IDs.
    pub closed spec fn configured(&self) -> Seq<u8> {
        self.configured@
    }

    /// Whether each configured motor has been found.
    pub closed spec fn found(&self) -> Seq<bool> {
        self.found@
    }

    /// The scans recorded so far, oldest first.
    pub closed spec fn scans(&self) -> Seq<Seq<u8>> {
        self.scans@
    }

    /// A motor counts as found exactly when some recorded scan reported it.
    pub open spec fn wf(&self) -> bool {
        &&& self.found().len() == self.configured().len()
        &&& forall|i: int| 0 <= i < self.configured().len() ==>
            #[trigger] self.found()[i] == seen_in(self.scans(), self.configured()[i])
    }

    /// A tracker for the given motors, with no scan recorded yet.
    pub fn new(configured: Vec<u8>) -> (t: DiscoveryTracker)
        ensures
            t.wf(),
            t.configured() == configured@,
            t.scans() == Seq::<Seq<u8>>::empty(),
            t.found() == Seq::new(configured@.len(), |i: int| false),
    {
        let mut found: Vec<bool> = Vec::new();
        let mut i: usize = 0;
        while i < configured.len()
            invariant
                0 <= i <= configured.len(),
                found@ == Seq::new(i as nat, |k: int| false),
            decreases configured.len() - i,
        {
            found.push(false);
            i += 1;
            assert(found@ =~= Seq::new(i as nat, |k: int| false));
        }
        let t = DiscoveryTracker { configured, found, scans: Ghost(Seq::empty()) };
        assert(t.found@ =~= Seq::new(t.configured@.len(), |k: int| false));
        t
    }

    /// Records one scan of a port: marks each configured motor that it
    /// reported as found, and returns the reported IDs that are not
    /// configured, in the order reported.
    pub fn record_scan(&mut self, discovered: &Vec<u8>) -> (unknown: Vec<u8>)
        requires
            old(self).wf(),
        ensures
            final(self).wf(),
            final(self).configured() == old(self).configured(),
            final(self).scans() == old(self).scans().push(discovered@),
            final(self).found().len() == old(self).found().len(),
            forall|i: int| 0 <= i < old(self).found().len() ==>
                #[trigger] final(self).found()[i] == (old(self).found()[i] || discovered@.contains(old(self).configured()[i])),
            unknown@ == unknown_ids(discovered@, old(self).configured()),
    {
        let ghost old_found = self.found@;
        let ghost old_scans = self.scans@;
        let mut i: usize = 0;
        while i < self.configured.len()
            invariant
                0 <= i <= self.configured@.len(),
                self.found@.len() == self.configured@.len(),
                self.configured@ == old(self).configured@,
                old_found == old(self).found@,
                old_found.len() == self.configured@.len(),
                forall|k: int| 0 <= k < i ==>
                    #[trigger] self.found@[k] == (old_found[k] || discovered@.contains(self.configured@[k])),
                forall|k: int| i <= k < self.found@.len() ==> #[trigger] self.found@[k] == old_found[k],
            decreases self.configured@.len() - i,
        {
            if contains_id(discovered, self.configured[i]) {
                self.found.set(i, true);
            }
            i += 1;
        }
        let ghost new_scans = old_scans.push(discovered@);
        proof {
            assert forall|k: int| 0 <= k < self.configured@.len() implies
                #[trigger] self.found@[k] == seen_in(new_scans, self.configured@[k]) by {
                let id = self.configured@[k];
                assert(new_scans[old_scans.len() as int] == discovered@);
                if seen_in(old_scans, id) {
                    let j = choose|j: int| 0 <= j < old_scans.len() && #[trigger] old_scans[j].contains(id);
                    assert(new_scans[j] == old_scans[j]);
                }
                if seen_in(new_scans, id) && !discovered@.contains(id) {
                    let j = choose|j: int| 0 <= j < new_scans.len() && #[trigger] new_scans[j].contains(id);
                    assert(new_scans[j] == old_scans[j]);
                }
            }
        }
        self.scans = Ghost(new_scans);
        let mut unknown: Vec<u8> = Vec::new();
        let mut j: usize = 0;
        while j < discovered.len()
            invariant
                0 <= j <= discovered.len(),
                self.configured@ == old(self).configured@,
                unknown@ == unknown_ids(discovered@.take(j as int), self.configured@),
            decreases discovered.len() - j,
        {
            let d = discovered[j];
            let known = contains_id(&self.configured, d);
            proof {
                reveal(Seq::filter);
                assert(discovered@.take(j + 1).drop_last() =~= discovered@.take(j as int));
            }
            if !known {
                unknown.push(d);
            }
            j += 1;
        }
        assert(discovered@.take(discovered@.len() as int) =~= discovered@);
        unknown
    }

    /// Positions, among the configured motors, of those that no scan has
    /// found, in configured order.
    pub fn missing(&self) -> (idx: Vec<usize>)
        requires
            self.wf(),
        ensures
            forall|k: int| 0 <= k < idx@.len() ==> 0 <= #[trigger] idx@[k] < self.configured().len(),
            forall|k: int| 0 <= k < idx@.len() ==> !self.found()[#[trigger] idx@[k] as int],
            forall|i: int| 0 <= i < self.configured().len() && !self.found()[i] ==> #[trigger] idx@.contains(i as usize),
            forall|a: int, b: int| 0 <= a < b < idx@.len() ==> #[trigger] idx@[a] < #[trigger] idx@[b],
    {
        let mut idx: Vec<usize> = Vec::new();
        let mut i: usize = 0;
        while i < self.found.len()
            invariant
                0 <= i <= self.found@.len(),
                self.found@.len() == self.configured@.len(),
                forall|k: int| 0 <= k < idx@.len() ==> 0 <= #[trigger] idx@[k] < i,
                forall|k: int| 0 <= k < idx@.len() ==> !self.found@[#[trigger] idx@[k] as int],
                forall|m: int| 0 <= m < i && !self.found@[m] ==> #[trigger] idx@.contains(m as usize),
                forall|a: int, b: int| 0 <= a < b < idx@.len() ==> #[trigger] idx@[a] < #[trigger] idx@[b],
            decreases self.found@.len() - i,
        {
            let ghost before = idx@;
            if !self.found[i] {
                idx.push(i);
            }
            proof {
                assert forall|m: int| 0 <= m < i + 1 && !self.found@[m] implies #[trigger] idx@.contains(m as usize) by {
                    if m == i {
                        assert(idx@[idx@.len() - 1] == m as usize);
                    } else {
                        assert(before.contains(m as usize));
                        let w = choose|w: int| 0 <= w < before.len() && before[w] == m as usize;
                        assert(idx@[w] == before[w]);
                    }
                }
            }
            i += 1;
        }
        idx
    }
}


/// A scan's unknown IDs are exactly the IDs it reported that are not
/// configured.
pub proof fn law_unknown_ids_are_exactly_the_unconfigured(discovered: Seq<u8>, configured: Seq<u8>)
    ensures
        forall|x: u8| #[trigger] unknown_ids(discovered, configured).contains(x)
            <==> (discovered.contains(x) && !configured.contains(x)),
{
    let pred = |d: u8| !configured.contains(d);
    let u = discovered.filter(pred);
    assert forall|x: u8| #[trigger] u.contains(x) <==> (discovered.contains(x) && !configured.contains(x)) by {
        if u.contains(x) {
            discovered.lemma_filter_contains_rev(pred, x);
            let i = choose|i: int| 0 <= i < u.len() && u[i] == x;
            discovered.lemma_filter_pred(pred, i);
        }
        if discovered.contains(x) && !configured.contains(x) {
            let i = choose|i: int| 0 <= i < discovered.len() && discovered[i] == x;
            discovered.lemma_filter_contains(pred, i);
        }
    }
}


/// The transport depends on the start of the port name alone: every name
/// beginning with `/dev/tty` is a serial adapter, every other name
/// beginning with `can` (whatever follows: `can0`, `can1`, ..., `can4`) is
/// a SocketCAN interface, and every other name is invalid.
pub proof fn law_port_transport_follows_prefix(port: Seq<char>, suffix: Seq<char>)
    ensures
        "/dev/tty"@.is_prefix_of(port) ==> port_kind_of(port) == Some(PortKind::Ch341),
        "can"@.is_prefix_of(port) && !"/dev/tty"@.is_prefix_of(port) ==> port_kind_of(port) == Some(PortKind::SocketCan),
        !"can"@.is_prefix_of(port) && !"/dev/tty"@.is_prefix_of(port) ==> port_kind_of(port) is None,
        port_kind_of(port) is Some ==> port_kind_of(port + suffix) == port_kind_of(port),
{
    if port_kind_of(port) is Some {
        let q = port + suffix;
        if "/dev/tty"@.is_prefix_of(port) {
            assert("/dev/tty"@ =~= q.subrange(0, "/dev/tty"@.len() as int));
        } else {
            assert("can"@ =~= q.subrange(0, "can"@.len() as int));
            if "/dev/tty"@.is_prefix_of(q) {
                reveal_strlit("/dev/tty");
                reveal_strlit("can");
                assert("/dev/tty"@[0] == '/');
                assert("can"@[0] == 'c');
                assert(q.subrange(0, 8)[0] == q[0]);
                assert(q.subrange(0, 3)[0] == q[0]);
                assert(false);
            }
        }
    }
}

} // verus!
