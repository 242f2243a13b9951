//! A virtual L2 switch for the LAN between the VMs of one graph, and the
//! registry that gives every graph its own switch. An edge A→B in a graph
//! puts A and B on the same switch; a VM without edges is alone on its switch
//! and its frames go nowhere.

use vstd::prelude::*;
use std::sync::mpsc::{Receiver, SyncSender};
use std::sync::{Arc, Mutex, MutexGuard};
use crate::net::port::{Handoff, SwitchPort, send_frame};
use crate::seqs::{seq_without, lemma_without_absent, lemma_without_unique, lemma_without_push, lemma_without_contains};

verus! {

#[verifier::external_type_specification]
#[verifier::external_body]
#[verifier::reject_recursive_types(T)]
pub struct ExSyncSender<T>(SyncSender<T>);

#[verifier::external_type_specification]
#[verifier::external_body]
#[verifier::reject_recursive_types(T)]
pub struct ExReceiver<T>(Receiver<T>);

#[verifier::external_type_specification]
#[verifier::external_body]
#[verifier::reject_recursive_types(T)]
pub struct ExMutex<T: ?Sized>(Mutex<T>);

#[verifier::external_type_specification]
#[verifier::external_body]
#[verifier::reject_recursive_types(T)]
pub struct ExMutexGuard<'a, T: ?Sized + 'a>(MutexGuard<'a, T>);

/// `Deref` of a held switch lock: the switch behind it. Nothing is claimed
/// of it beyond its type (and so its type invariant).
#[verifier::external_body]
pub(crate) fn locked_switch<'b, 'a>(guard: &'b MutexGuard<'a, VirtualSwitch>) -> &'b VirtualSwitch {
    &**guard
}

/// Takes the lock of a shared switch (`Mutex::lock`). A lock poisoned by a
/// thread that panicked while holding it is taken all the same
/// (`PoisonError::into_inner`), so this never panics; it waits while another
/// thread holds the lock.
#[verifier::external_body]
pub(crate) fn lock_switch(s: &SharedSwitch) -> MutexGuard<'_, VirtualSwitch> {
    match s.lock() {
        Ok(guard) => guard,
        Err(poisoned) => poisoned.into_inner(),
    }
}

/// The sending end of a port's frame channel.
pub type FrameSender = SyncSender<Vec<u8>>;

/// The receiving end of a port's frame channel, shared with the VM's NIC.
pub type FrameReceiver = Arc<Mutex<Receiver<Vec<u8>>>>;

/// A switch shared between the NICs of a graph's VMs.
pub type SharedSwitch = Arc<Mutex<VirtualSwitch>>;

/// Frames a port's channel buffers before a sender waits.
pub const PORT_QUEUE_FRAMES: usize = 256;

/// `std::sync::mpsc::sync_channel`: a bounded channel holding at most `bound`
/// messages. Nothing is claimed of the two ends.
pub assume_specification<T>[ std::sync::mpsc::sync_channel::<T> ](bound: usize) -> (SyncSender<
    T,
>, Receiver<T>);

/// `std::sync::Mutex::new`: a lock around `t`. Nothing is claimed of the result.
pub assume_specification<T>[ Mutex::<T>::new ](t: T) -> Mutex<T>;

/// `Arc::clone` on a shared switch: another handle to the same switch.
#[verifier::external_body]
fn share_switch(s: &SharedSwitch) -> (r: SharedSwitch)
    ensures
        r == *s,
{
    Arc::clone(s)
}

/// The Ethernet broadcast address.
pub open spec fn broadcast_mac_bytes() -> Seq<u8> {
    seq![0xFFu8, 0xFF, 0xFF, 0xFF, 0xFF, 0xFF]
}


pub struct VirtualSwitch {
    ports: Vec<SwitchPort>,
    graph_id: String,
}

/// Whether two MAC addresses are equal.
pub fn mac_eq(a: &[u8; 6], b: &[u8; 6]) -> (r: bool)
    ensures
        r == (a@ == b@),
{
    let mut i: usize = 0;
    while i < 6
        invariant
            i <= 6,
            a@.len() == 6,
            b@.len() == 6,
            forall|j: int| 0 <= j < i ==> a@[j] == b@[j],
        decreases 6 - i,
    {
        if a[i] != b[i] {
            return false;
        }
        i = i + 1;
    }
    assert(a@ =~= b@);
    true
}

fn find_in(ports: &Vec<SwitchPort>, mac: &[u8; 6]) -> (r: Option<usize>)
    ensures
        r matches Some(i) ==> i < ports@.len() && ports@.map_values(|p: SwitchPort| p.mac_view())[i as int]
            == mac@,
        r is None ==> !ports@.map_values(|p: SwitchPort| p.mac_view()).contains(mac@),
{
    let ghost macs = ports@.map_values(|p: SwitchPort| p.mac_view());
    let mut i: usize = 0;
    while i < ports.len()
        invariant
            i <= ports@.len(),
            macs == ports@.map_values(|p: SwitchPort| p.mac_view()),
            forall|j: int| 0 <= j < i ==> macs[j] != mac@,
        decreases ports@.len() - i,
    {
        if mac_eq(&ports[i].mac(), mac) {
            return Some(i);
        }
        i = i + 1;
    }
    None
}

/// The recipients of a frame sent from `src` on a switch whose ports have the
/// MAC addresses `ports` (in port order): every other port for a broadcast,
/// the port of the destination address for a unicast, nobody for a frame too
/// short to carry a destination address.
pub open spec fn recipients_of(ports: Seq<Seq<u8>>, src: Seq<u8>, frame: Seq<u8>) -> Seq<Seq<u8>> {
    if frame.len() < 6 {
        Seq::empty()
    } else if frame.subrange(0, 6) == broadcast_mac_bytes() {
        seq_without(ports, src)
    } else if ports.contains(frame.subrange(0, 6)) {
        seq![frame.subrange(0, 6)]
    } else {
        Seq::empty()
    }
}

/// A broadcast frame reaches every other port and never comes back to the
/// port that sent it.
pub proof fn lemma_broadcast_reaches_others(ports: Seq<Seq<u8>>, src: Seq<u8>, frame: Seq<u8>)
    requires
        frame.len() >= 6,
        frame.subrange(0, 6) == broadcast_mac_bytes(),
    ensures
        !recipients_of(ports, src, frame).contains(src),
        forall|p: Seq<u8>| ports.contains(p) && p != src ==> recipients_of(ports, src, frame).contains(p),
{
    lemma_without_contains(ports, src, src);
    assert forall|p: Seq<u8>| ports.contains(p) && p != src implies recipients_of(ports, src, frame).contains(p) by {
        lemma_without_contains(ports, src, p);
    }
}

/// A frame to a single address reaches the port with that address, if there
/// is one, and nothing else.
pub proof fn lemma_unicast_reaches_owner(ports: Seq<Seq<u8>>, src: Seq<u8>, frame: Seq<u8>)
    requires
        frame.len() >= 6,
        frame.subrange(0, 6) != broadcast_mac_bytes(),
    ensures
        recipients_of(ports, src, frame) == (if ports.contains(frame.subrange(0, 6)) {
            seq![frame.subrange(0, 6)]
        } else {
            Seq::empty()
        }),
{
}

/// Every recipient of a frame is one of the switch's ports.
proof fn lemma_recipients_are_ports(ports: Seq<Seq<u8>>, src: Seq<u8>, frame: Seq<u8>)
    ensures
        forall|q: Seq<u8>| recipients_of(ports, src, frame).contains(q) ==> ports.contains(q),
{
    assert forall|q: Seq<u8>| recipients_of(ports, src, frame).contains(q) implies ports.contains(q) by {
        if frame.len() >= 6 {
            if frame.subrange(0, 6) == broadcast_mac_bytes() {
                lemma_without_contains(ports, src, q);
            } else if ports.contains(frame.subrange(0, 6)) {
                assert(seq![frame.subrange(0, 6)].contains(q) ==> q == frame.subrange(0, 6));
            }
        }
    }
}

impl VirtualSwitch {
    /// The MAC addresses of the ports, in port order.
    pub closed spec fn port_macs(&self) -> Seq<Seq<u8>> {
        self.ports@.map_values(|p: SwitchPort| p.mac_view())
    }

    /// The graph this switch belongs to.
    pub closed spec fn graph(&self) -> Seq<char> {
        self.graph_id@
    }

    /// No two ports share a MAC address.
    #[verifier::type_invariant]
    spec fn ports_distinct(&self) -> bool {
        self.port_macs().no_duplicates()
    }

    pub fn new(graph_id: &str) -> (s: Self)
        ensures
            s.port_macs() == Seq::<Seq<u8>>::empty(),
            s.graph() == graph_id@,
    {
        let s = VirtualSwitch { ports: Vec::new(), graph_id: graph_id.to_owned() };
        assert(s.port_macs() =~= Seq::<Seq<u8>>::empty());
        s
    }

    fn find_port(&self, mac: &[u8; 6]) -> (r: Option<usize>)
        ensures
            r matches Some(i) ==> i < self.port_macs().len() && self.port_macs()[i as int] == mac@,
            r is None ==> !self.port_macs().contains(mac@),
    {
        find_in(&self.ports, mac)
    }

    /// Connects a port with address `mac` and returns the end of its frame
    /// channel. A port that already has this address gets a new channel.
    pub fn add_port(&mut self, mac: [u8; 6]) -> (rx: FrameReceiver)
        ensures
            final(self).graph() == old(self).graph(),
            old(self).port_macs().contains(mac@) ==> final(self).port_macs() == old(self).port_macs(),
            !old(self).port_macs().contains(mac@) ==> final(self).port_macs() == old(
                self,
            ).port_macs().push(mac@),
    {
        proof {
            use_type_invariant(&*self);
        }
        let (tx, rx) = std::sync::mpsc::sync_channel(PORT_QUEUE_FRAMES);
        let ghost before = self.port_macs();
        let mut ports: Vec<SwitchPort> = Vec::new();
        std::mem::swap(&mut ports, &mut self.ports);
        let ghost before_ports = ports@;
        assert(before_ports.map_values(|p: SwitchPort| p.mac_view()) == before);
        match find_in(&ports, &mac) {
            Some(i) => {
                ports.set(i, SwitchPort::new(mac, tx));
                assert(ports@.map_values(|p: SwitchPort| p.mac_view()) =~= before);
            },
            None => {
                ports.push(SwitchPort::new(mac, tx));
                assert(ports@.map_values(|p: SwitchPort| p.mac_view()) =~= before.push(mac@));
            },
        }
        self.ports = ports;
        Arc::new(Mutex::new(rx))
    }

    /// Disconnects the port with address `mac`, if any.
    pub fn remove_port(&mut self, mac: &[u8; 6])
        ensures
            final(self).graph() == old(self).graph(),
            final(self).port_macs() == seq_without(old(self).port_macs(), mac@),
    {
        proof {
            use_type_invariant(&*self);
        }
        let ghost before = self.port_macs();
        let mut ports: Vec<SwitchPort> = Vec::new();
        std::mem::swap(&mut ports, &mut self.ports);
        assert(ports@.map_values(|p: SwitchPort| p.mac_view()) == before);
        match find_in(&ports, mac) {
            Some(i) => {
                ports.remove(i);
                proof {
                    assert(ports@.map_values(|p: SwitchPort| p.mac_view()) =~= before.remove(i as int));
                    lemma_without_unique(before, mac@, i as int);
                }
                self.ports = ports;
            },
            None => {
                proof {
                    lemma_without_absent(before, mac@);
                }
                self.ports = ports;
            },
        }
    }

    /// The addresses of the ports a frame sent from `src_mac` goes to.
    pub fn recipients(&self, src_mac: &[u8; 6], frame: &[u8]) -> (r: Vec<[u8; 6]>)
        ensures
            r@.map_values(|m: [u8; 6]| m@) == recipients_of(self.port_macs(), src_mac@, frame@),
    {
        let mut r: Vec<[u8; 6]> = Vec::new();
        if frame.len() < 6 {
            assert(r@.map_values(|m: [u8; 6]| m@) =~= Seq::<Seq<u8>>::empty());
            return r;
        }
        let dst: [u8; 6] = [frame[0], frame[1], frame[2], frame[3], frame[4], frame[5]];
        assert(dst@ =~= frame@.subrange(0, 6));
        let bcast: [u8; 6] = [0xFF; 6];
        assert(bcast@ =~= broadcast_mac_bytes());
        if mac_eq(&dst, &bcast) {
            let mut i: usize = 0;
            while i < self.ports.len()
                invariant
                    i <= self.ports@.len(),
                    self.port_macs().len() == self.ports@.len(),
                    r@.map_values(|m: [u8; 6]| m@) == seq_without(self.port_macs().subrange(0, i as int), src_mac@),
                decreases self.ports@.len() - i,
            {
                let ghost prefix = self.port_macs().subrange(0, i as int);
                assert(self.port_macs().subrange(0, i + 1) =~= prefix.push(self.port_macs()[i as int]));
                proof {
                    lemma_without_push(prefix, self.port_macs()[i as int], src_mac@);
                }
                if !mac_eq(&self.ports[i].mac(), src_mac) {
                    r.push(self.ports[i].mac());
                }
                assert(r@.map_values(|m: [u8; 6]| m@) =~= seq_without(self.port_macs().subrange(0, i + 1), src_mac@));
                i = i + 1;
            }
            assert(self.port_macs().subrange(0, self.ports@.len() as int) =~= self.port_macs());
        } else {
            match self.find_port(&dst) {
                Some(i) => {
                    r.push(dst);
                    assert(self.port_macs().contains(dst@));
                    assert(r@.map_values(|m: [u8; 6]| m@) =~= seq![frame@.subrange(0, 6)]);
                },
                None => {
                    assert(r@.map_values(|m: [u8; 6]| m@) =~= Seq::<Seq<u8>>::empty());
                },
            }
        }
        r
    }

    /// Sends `frame` from the port `src_mac` on to its recipients (see
    /// [`Self::recipients`]): a copy to every other port for a broadcast, the
    /// frame to the destination's port for a unicast. Returns what it handed
    /// on, in order: one copy of the frame for each recipient, once each.
    pub fn deliver(&self, src_mac: &[u8; 6], frame: Vec<u8>) -> (sent: Vec<Handoff>)
        ensures
            sent@.map_values(|h: Handoff| h.to()) == recipients_of(self.port_macs(), src_mac@, frame@),
            forall|i: int| 0 <= i < sent@.len() ==> #[trigger] sent@[i].bytes() == frame@,
    {
        let targets = self.recipients(src_mac, frame.as_slice());
        let ghost want = recipients_of(self.port_macs(), src_mac@, frame@);
        proof {
            lemma_recipients_are_ports(self.port_macs(), src_mac@, frame@);
        }
        let mut sent: Vec<Handoff> = Vec::new();
        let mut i: usize = 0;
        while i < targets.len()
            invariant
                i <= targets@.len(),
                targets@.map_values(|m: [u8; 6]| m@) == want,
                want == recipients_of(self.port_macs(), src_mac@, frame@),
                forall|q: Seq<u8>| want.contains(q) ==> self.port_macs().contains(q),
                sent@.map_values(|h: Handoff| h.to()) == want.subrange(0, i as int),
                forall|j: int| 0 <= j < sent@.len() ==> #[trigger] sent@[j].bytes() == frame@,
            decreases targets@.len() - i,
        {
            assert(want[i as int] == targets@[i as int]@);
            assert(want.contains(targets@[i as int]@));
            match self.find_port(&targets[i]) {
                Some(p) => {
                    assert(self.ports@[p as int].mac_view() == self.port_macs()[p as int]);
                    let h = send_frame(&self.ports[p], frame.as_slice());
                    assert(h.to() == want[i as int]);
                    let ghost before = sent@;
                    sent.push(h);
                    assert(sent@ == before.push(h));
                    assert(want.subrange(0, i + 1) =~= want.subrange(0, i as int).push(want[i as int]));
                    assert(sent@.map_values(|h: Handoff| h.to()) =~= want.subrange(0, i + 1));
                },
                None => {
                    assert(false);
                },
            }
            i = i + 1;
        }
        assert(want.subrange(0, i as int) =~= want);
        sent
    }

    /// The graph this switch belongs to.
    pub fn graph_id(&self) -> (g: &str)
        ensures
            g@ == self.graph(),
    {
        self.graph_id.as_str()
    }

    /// The number of connected ports.
    pub fn port_count(&self) -> (n: usize)
        ensures
            n == self.port_macs().len(),
    {
        self.ports.len()
    }
}

struct GraphSwitch {
    graph_id: String,
    switch: SharedSwitch,
}

/// Gives each graph its own switch, so that VMs added to the same graph share one.
pub struct SwitchRegistry {
    switches: Vec<GraphSwitch>,
}

impl SwitchRegistry {
    /// The graphs that have a switch, in the order they got one.
    pub closed spec fn graphs(&self) -> Seq<Seq<char>> {
        self.switches@.map_values(|e: GraphSwitch| e.graph_id@)
    }

    /// The switch of the graph at position `i` of [`Self::graphs`].
    pub closed spec fn switch_at(&self, i: int) -> SharedSwitch {
        self.switches@[i].switch
    }

    /// No graph has two switches.
    #[verifier::type_invariant]
    spec fn graphs_distinct(&self) -> bool {
        self.graphs().no_duplicates()
    }

    pub fn new() -> (r: Self)
        ensures
            r.graphs() == Seq::<Seq<char>>::empty(),
    {
        let r = SwitchRegistry { switches: Vec::new() };
        assert(r.graphs() =~= Seq::<Seq<char>>::empty());
        r
    }

    fn find_graph(&self, graph_id: &str) -> (r: Option<usize>)
        ensures
            r matches Some(i) ==> i < self.graphs().len() && self.graphs()[i as int] == graph_id@,
            r is None ==> !self.graphs().contains(graph_id@),
    {
        let key = graph_id.to_owned();
        let mut i: usize = 0;
        while i < self.switches.len()
            invariant
                i <= self.switches@.len(),
                self.graphs().len() == self.switches@.len(),
                key@ == graph_id@,
                forall|j: int| 0 <= j < i ==> self.graphs()[j] != graph_id@,
            decreases self.switches@.len() - i,
        {
            if self.switches[i].graph_id == key {
                return Some(i);
            }
            i = i + 1;
        }
        None
    }

    /// The switch of `graph_id`, created (empty) on first use.
    pub fn get_or_create(&mut self, graph_id: &str) -> (s: SharedSwitch)
        ensures
            old(self).graphs().contains(graph_id@) ==> {
                &&& final(self).graphs() == old(self).graphs()
                &&& forall|i: int|
                    0 <= i < old(self).graphs().len() ==> final(self).switch_at(i) == old(self).switch_at(i)
                &&& exists|i: int|
                    0 <= i < old(self).graphs().len() && old(self).graphs()[i] == graph_id@ && s
                        == old(self).switch_at(i)
            },
            !old(self).graphs().contains(graph_id@) ==> {
                &&& final(self).graphs() == old(self).graphs().push(graph_id@)
                &&& forall|i: int|
                    0 <= i < old(self).graphs().len() ==> final(self).switch_at(i) == old(self).switch_at(i)
                &&& s == final(self).switch_at(old(self).graphs().len() as int)
            },
    {
        proof {
            use_type_invariant(&*self);
        }
        match self.find_graph(graph_id) {
            Some(i) => {
                let r = share_switch(&self.switches[i].switch);
                assert(self.graphs()[i as int] == graph_id@);
                assert(r == self.switch_at(i as int));
                r
            },
            None => {
                let ghost before = self.graphs();
                let sw: SharedSwitch = Arc::new(Mutex::new(VirtualSwitch::new(graph_id)));
                let r = share_switch(&sw);
                let mut switches: Vec<GraphSwitch> = Vec::new();
                std::mem::swap(&mut switches, &mut self.switches);
                switches.push(GraphSwitch { graph_id: graph_id.to_owned(), switch: sw });
                assert(switches@.map_values(|e: GraphSwitch| e.graph_id@) =~= before.push(graph_id@));
                self.switches = switches;
                r
            },
        }
    }

    /// Forgets the switch of `graph_id`, if any.
    pub fn remove_graph(&mut self, graph_id: &str)
        ensures
            final(self).graphs() == seq_without(old(self).graphs(), graph_id@),
            forall|i: int, j: int|
                0 <= i < final(self).graphs().len() && 0 <= j < old(self).graphs().len()
                    && #[trigger] final(self).graphs()[i] == #[trigger] old(self).graphs()[j]
                    ==> final(self).switch_at(i) == old(self).switch_at(j),
    {
        proof {
            use_type_invariant(&*self);
        }
        let ghost before = self.graphs();
        match self.find_graph(graph_id) {
            Some(i) => {
                let mut switches: Vec<GraphSwitch> = Vec::new();
                std::mem::swap(&mut switches, &mut self.switches);
                assert(switches@.map_values(|e: GraphSwitch| e.graph_id@) == before);
                let ghost before_sw = switches@;
                switches.remove(i);
                proof {
                    assert(switches@.map_values(|e: GraphSwitch| e.graph_id@) =~= before.remove(i as int));
                    lemma_without_unique(before, graph_id@, i as int);
                    assert(switches@ == before_sw.remove(i as int));
                }
                self.switches = switches;
                proof {
                    assert forall|a: int, b: int|
                        0 <= a < self.graphs().len() && 0 <= b < before.len()
                            && #[trigger] self.graphs()[a] == #[trigger] before[b]
                            implies self.switch_at(a) == before_sw[b].switch by {
                        if a < i {
                            assert(self.graphs()[a] == before[a]);
                            assert(before.no_duplicates());
                        } else {
                            assert(self.graphs()[a] == before[a + 1]);
                        }
                    }
                }
            },
            None => {
                proof {
                    lemma_without_absent(before, graph_id@);
                }
            },
        }
    }
}

} // verus!
