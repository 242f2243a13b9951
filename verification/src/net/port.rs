//! A port of the virtual switch, and the record of a frame handed to one.
//! A `Handoff` can only come from `send_frame`, so holding one shows that a
//! frame was put on a port's channel.

use vstd::prelude::*;
use crate::net::switch::FrameSender;

verus! {

/// A port of the switch: its address and the sending end of its channel.
pub(crate) struct SwitchPort {
    mac: [u8; 6],
    tx: FrameSender,
}

impl SwitchPort {
    /// The port's address.
    pub(crate) closed spec fn mac_view(&self) -> Seq<u8> {
        self.mac@
    }

    pub(crate) fn new(mac: [u8; 6], tx: FrameSender) -> (p: Self)
        ensures
            p.mac_view() == mac@,
    {
        SwitchPort { mac, tx }
    }

    pub(crate) fn mac(&self) -> (m: [u8; 6])
        ensures
            m@ == self.mac_view(),
    {
        self.mac
    }
}

/// One copy of a frame put on a port's channel.
pub struct Handoff {
    port: [u8; 6],
    frame: Ghost<Seq<u8>>,
}

impl Handoff {
    /// The address of the port whose channel got the copy.
    pub closed spec fn to(&self) -> Seq<u8> {
        self.port@
    }

    /// The bytes put on the channel.
    pub closed spec fn bytes(&self) -> Seq<u8> {
        self.frame@
    }

    /// The address of the port whose channel got the copy.
    pub fn port(&self) -> (m: [u8; 6])
        ensures
            m@ == self.to(),
    {
        self.port
    }
}

/// Sends a copy of `frame` on the channel of `port` with `SyncSender::send`,
/// dropping the error returned when the receiving end is gone, and records
/// what it handed to which port: the port's address and the bytes of
/// `frame`. `send` waits while the channel's buffer is full; nothing is
/// claimed of what the receiver sees.
#[verifier::external_body]
pub(crate) fn send_frame(port: &SwitchPort, frame: &[u8]) -> (h: Handoff)
    ensures
        h.to() == port.mac_view(),
        h.bytes() == frame@,
{
    let _ = port.tx.send(frame.to_vec());
    Handoff { port: port.mac, frame: Ghost(frame@) }
}

} // verus!
