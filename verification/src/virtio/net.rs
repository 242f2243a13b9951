//! virtio-net: a VM's two NICs. eth0 is on the LAN (the graph's virtual
//! switch), eth1 on the NAT (userspace internet).

use vstd::prelude::*;
use crate::net::mac::{generate_mac, mac_for, default_str_hash};
use crate::net::port::Handoff;
use crate::net::switch::{SharedSwitch, lock_switch, locked_switch, recipients_of};

verus! {

pub struct NetDevice {
    pub mac_lan: [u8; 6],
    pub mac_nat: [u8; 6],
    pub lan_enabled: bool,
    pub nat_enabled: bool,
    pub switch: Option<SharedSwitch>,
    lan_rx: Vec<Vec<u8>>,
    nat_rx: Vec<Vec<u8>>,
}

impl NetDevice {
    /// The address of eth0.
    pub closed spec fn lan_mac(&self) -> Seq<u8> {
        self.mac_lan@
    }

    /// The address of eth1.
    pub closed spec fn nat_mac(&self) -> Seq<u8> {
        self.mac_nat@
    }

    pub closed spec fn lan_on(&self) -> bool {
        self.lan_enabled
    }

    pub closed spec fn nat_on(&self) -> bool {
        self.nat_enabled
    }

    /// The switch eth0 is on, if any.
    pub closed spec fn attached(&self) -> Option<SharedSwitch> {
        self.switch
    }

    /// Frames received on eth0 and not yet drained, oldest first.
    pub closed spec fn lan_pending(&self) -> Seq<Seq<u8>> {
        self.lan_rx@.map_values(|f: Vec<u8>| f@)
    }

    /// Frames received on eth1 and not yet drained, oldest first.
    pub closed spec fn nat_pending(&self) -> Seq<Seq<u8>> {
        self.nat_rx@.map_values(|f: Vec<u8>| f@)
    }

    pub fn new(vm_id: &str, lan_enabled: bool, nat_enabled: bool) -> (d: Self)
        ensures
            d.lan_mac() == mac_for(default_str_hash(vm_id@), 0),
            d.nat_mac() == mac_for(default_str_hash(vm_id@), 1),
            d.lan_on() == lan_enabled,
            d.nat_on() == nat_enabled,
            d.attached() is None,
            d.lan_pending() == Seq::<Seq<u8>>::empty(),
            d.nat_pending() == Seq::<Seq<u8>>::empty(),
    {
        let d = NetDevice {
            mac_lan: generate_mac(vm_id, 0),
            mac_nat: generate_mac(vm_id, 1),
            lan_enabled,
            nat_enabled,
            switch: None,
            lan_rx: Vec::new(),
            nat_rx: Vec::new(),
        };
        assert(d.lan_pending() =~= Seq::<Seq<u8>>::empty());
        assert(d.nat_pending() =~= Seq::<Seq<u8>>::empty());
        d
    }

    /// Puts eth0 on `switch`.
    pub fn attach_switch(&mut self, switch: SharedSwitch)
        ensures
            final(self).attached() == Some(switch),
            final(self).lan_mac() == old(self).lan_mac(),
            final(self).nat_mac() == old(self).nat_mac(),
            final(self).lan_on() == old(self).lan_on(),
            final(self).nat_on() == old(self).nat_on(),
            final(self).lan_pending() == old(self).lan_pending(),
            final(self).nat_pending() == old(self).nat_pending(),
    {
        self.switch = Some(switch);
    }

    /// The guest sends `frame` on eth0. With a switch attached, the frame goes
    /// onto it from this NIC's address (see `VirtualSwitch::deliver`), and
    /// what the switch handed on is returned: the frame, once to each
    /// recipient by the switch's ports at that moment, which other NICs may
    /// change. Without a switch the frame is dropped and `None` is returned.
    pub fn lan_send(&mut self, frame: Vec<u8>) -> (sent: Option<Vec<Handoff>>)
        ensures
            *final(self) == *old(self),
            sent is None <==> old(self).attached() is None,
            sent matches Some(v) ==> {
                &&& exists|ports: Seq<Seq<u8>>|
                    #[trigger] recipients_of(ports, old(self).lan_mac(), frame@) == v@.map_values(
                        |h: Handoff| h.to(),
                    )
                &&& forall|i: int| 0 <= i < v@.len() ==> #[trigger] v@[i].bytes() == frame@
            },
    {
        if let Some(sw) = &self.switch {
            let guard = lock_switch(sw);
            let switch = locked_switch(&guard);
            let v = switch.deliver(&self.mac_lan, frame);
            assert(recipients_of(switch.port_macs(), self.lan_mac(), frame@) == v@.map_values(
                |h: Handoff| h.to(),
            ));
            Some(v)
        } else {
            None
        }
    }

    /// The guest sends `frame` on eth1. The NAT stack is not wired to this
    /// device, so the frame is dropped.
    pub fn nat_send(&mut self, frame: Vec<u8>)
        ensures
            *final(self) == *old(self),
    {
    }

    /// A frame for the guest arrives on eth0.
    pub fn lan_recv(&mut self, frame: Vec<u8>)
        ensures
            final(self).lan_pending() == old(self).lan_pending().push(frame@),
            final(self).nat_pending() == old(self).nat_pending(),
            final(self).lan_mac() == old(self).lan_mac(),
            final(self).nat_mac() == old(self).nat_mac(),
            final(self).attached() == old(self).attached(),
    {
        self.lan_rx.push(frame);
        assert(self.lan_pending() =~= old(self).lan_pending().push(frame@));
    }

    /// A frame for the guest arrives on eth1.
    pub fn nat_recv(&mut self, frame: Vec<u8>)
        ensures
            final(self).nat_pending() == old(self).nat_pending().push(frame@),
            final(self).lan_pending() == old(self).lan_pending(),
            final(self).lan_mac() == old(self).lan_mac(),
            final(self).nat_mac() == old(self).nat_mac(),
            final(self).attached() == old(self).attached(),
    {
        self.nat_rx.push(frame);
        assert(self.nat_pending() =~= old(self).nat_pending().push(frame@));
    }

    /// All frames received on eth0, oldest first; none remain.
    pub fn drain_lan_rx(&mut self) -> (frames: Vec<Vec<u8>>)
        ensures
            frames@.map_values(|f: Vec<u8>| f@) == old(self).lan_pending(),
            final(self).lan_pending() == Seq::<Seq<u8>>::empty(),
            final(self).nat_pending() == old(self).nat_pending(),
            final(self).attached() == old(self).attached(),
    {
        let mut frames: Vec<Vec<u8>> = Vec::new();
        std::mem::swap(&mut frames, &mut self.lan_rx);
        assert(self.lan_pending() =~= Seq::<Seq<u8>>::empty());
        frames
    }

    /// All frames received on eth1, oldest first; none remain.
    pub fn drain_nat_rx(&mut self) -> (frames: Vec<Vec<u8>>)
        ensures
            frames@.map_values(|f: Vec<u8>| f@) == old(self).nat_pending(),
            final(self).nat_pending() == Seq::<Seq<u8>>::empty(),
            final(self).lan_pending() == old(self).lan_pending(),
            final(self).attached() == old(self).attached(),
    {
        let mut frames: Vec<Vec<u8>> = Vec::new();
        std::mem::swap(&mut frames, &mut self.nat_rx);
        assert(self.nat_pending() =~= Seq::<Seq<u8>>::empty());
        frames
    }
}

/// A call on a NIC other than `drain_nat_rx`, with the frame it takes.
pub ghost enum NicCall {
    AttachSwitch,
    LanSend(Seq<u8>),
    NatSend(Seq<u8>),
    LanRecv(Seq<u8>),
    NatRecv(Seq<u8>),
    DrainLan,
}

/// What a call does to the NAT queue, as the methods' contracts state:
/// `nat_recv` appends its frame, every other call leaves the queue alone.
pub open spec fn nat_queue_step(q: Seq<Seq<u8>>, c: NicCall) -> Seq<Seq<u8>> {
    match c {
        NicCall::NatRecv(f) => q.push(f),
        _ => q,
    }
}

/// The frames of the `nat_recv` calls among `calls`, in call order.
pub open spec fn nat_frames(calls: Seq<NicCall>) -> Seq<Seq<u8>>
    decreases calls.len(),
{
    if calls.len() == 0 {
        Seq::empty()
    } else {
        let before = nat_frames(calls.drop_last());
        match calls.last() {
            NicCall::NatRecv(f) => before.push(f),
            _ => before,
        }
    }
}

/// What a drain of the NAT queue returns is exactly the frames received on
/// eth1 since the last drain, in order, whatever other calls came between:
/// `ds` are the NIC's states from just after a drain (empty NAT queue), each
/// following the one before by a call of `calls`; the last state's NAT queue,
/// which the next `drain_nat_rx` returns, holds the `nat_recv` frames.
pub proof fn lemma_nat_drain_returns_received(ds: Seq<NetDevice>, calls: Seq<NicCall>)
    requires
        ds.len() == calls.len() + 1,
        ds[0].nat_pending() == Seq::<Seq<u8>>::empty(),
        forall|i: int|
            0 <= i < calls.len() ==> ds[i + 1].nat_pending() == nat_queue_step(
                ds[i].nat_pending(),
                #[trigger] calls[i],
            ),
    ensures
        ds.last().nat_pending() == nat_frames(calls),
    decreases calls.len(),
{
    if calls.len() > 0 {
        let k = calls.len() - 1;
        let ds0 = ds.drop_last();
        let cs0 = calls.drop_last();
        assert forall|i: int| 0 <= i < cs0.len() implies ds0[i + 1].nat_pending() == nat_queue_step(
            ds0[i].nat_pending(),
            #[trigger] cs0[i],
        ) by {
            assert(calls[i] == cs0[i]);
        }
        lemma_nat_drain_returns_received(ds0, cs0);
        assert(calls[k] == calls.last());
        assert(ds[k] == ds0.last());
    }
}

} // verus!
