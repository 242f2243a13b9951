//! virtio-serial: the bidirectional agent channel between host and guest,
//! used for clipboard sync and for a graph node's output port and exit code.
//!
//! Host → guest: raw data, or clipboard text framed as `CLIP:<text>\n`.
//! Guest → host: data starting `CLIP:` is clipboard text, data starting
//! `EXIT:` carries the node's exit code, anything else is node output.

use vstd::prelude::*;
use vstd::std_specs::vecdeque::*;
use std::collections::VecDeque;
use crate::bytes::push_slice;
use crate::text::{utf8_str, trim_str, parse_i32, lossy_string, utf8_lossy, trim_spec, parse_i32_spec};
use vstd::utf8::{valid_utf8, decode_utf8};
use vstd::string::StringSliceAdditionalSpecFns;

verus! {

/// Where a piece of serial output belongs.
#[derive(PartialEq, Eq, Structural, Clone, Copy, Debug)]
pub enum SerialPort {
    Stdout,
    Clipboard,
    Control,
}

/// Output drained from a serial channel.
pub struct SerialOutput {
    pub data: String,
    pub port: SerialPort,
}

/// The prefix of clipboard messages: `CLIP:`.
pub open spec fn clip_prefix() -> Seq<u8> {
    seq![67u8, 76, 73, 80, 58]
}

/// The prefix of exit-code messages: `EXIT:`.
pub open spec fn exit_prefix() -> Seq<u8> {
    seq![69u8, 88, 73, 84, 58]
}

pub open spec fn starts_with(data: Seq<u8>, prefix: Seq<u8>) -> bool {
    data.len() >= prefix.len() && data.subrange(0, prefix.len() as int) == prefix
}

/// The message that carries clipboard text to the guest: `CLIP:<text>\n`.
pub open spec fn clip_message(text_bytes: Seq<u8>) -> Seq<u8> {
    clip_prefix() + text_bytes + seq![10u8]
}

/// The channel's state: messages queued for the guest, output and clipboard
/// bytes received from it, and the last exit code it reported.
pub ghost struct SerialState {
    pub to_guest: Seq<Seq<u8>>,
    pub stdout: Seq<u8>,
    pub clipboard: Seq<u8>,
    pub exit_code: Option<i32>,
}

/// The exit code an `EXIT:` message reports, if its rest is UTF-8; `Some(None)`
/// when it is UTF-8 but no number.
pub open spec fn exit_report(rest: Seq<u8>) -> Option<Option<i32>> {
    if valid_utf8(rest) {
        Some(parse_i32_spec(trim_spec(decode_utf8(rest))))
    } else {
        None
    }
}

impl SerialState {
    pub open spec fn with_to_guest(self, q: Seq<Seq<u8>>) -> SerialState {
        SerialState { to_guest: q, ..self }
    }

    pub open spec fn with_stdout(self, b: Seq<u8>) -> SerialState {
        SerialState { stdout: b, ..self }
    }

    pub open spec fn with_clipboard(self, b: Seq<u8>) -> SerialState {
        SerialState { clipboard: b, ..self }
    }

    pub open spec fn with_exit_code(self, c: Option<i32>) -> SerialState {
        SerialState { exit_code: c, ..self }
    }

    /// The state after the guest sent `data`.
    pub open spec fn received(self, data: Seq<u8>) -> SerialState {
        if starts_with(data, clip_prefix()) {
            SerialState { clipboard: self.clipboard + data.subrange(5, data.len() as int), ..self }
        } else if starts_with(data, exit_prefix()) {
            match exit_report(data.subrange(5, data.len() as int)) {
                Some(code) => SerialState { exit_code: code, ..self },
                None => self,
            }
        } else {
            SerialState { stdout: self.stdout + data, ..self }
        }
    }
}

pub struct SerialDevice {
    tx_queue: VecDeque<Vec<u8>>,
    rx_stdout: VecDeque<u8>,
    rx_clipboard: VecDeque<u8>,
    exit_code: Option<i32>,
}

/// Appends the bytes of `s` to the back of `q`.
fn extend_back(q: &mut VecDeque<u8>, s: &[u8])
    ensures
        final(q)@ == old(q)@ + s@,
{
    let mut i: usize = 0;
    while i < s.len()
        invariant
            i <= s@.len(),
            q@ == old(q)@ + s@.subrange(0, i as int),
        decreases s@.len() - i,
    {
        q.push_back(s[i]);
        assert(s@.subrange(0, i + 1) =~= s@.subrange(0, i as int).push(s@[i as int]));
        assert(q@ =~= old(q)@ + s@.subrange(0, i + 1));
        i = i + 1;
    }
    assert(s@.subrange(0, s@.len() as int) =~= s@);
}

/// Takes every byte out of `q`, front first.
fn drain_all(q: &mut VecDeque<u8>) -> (bytes: Vec<u8>)
    ensures
        bytes@ == old(q)@,
        final(q)@ == Seq::<u8>::empty(),
{
    let mut bytes: Vec<u8> = Vec::new();
    loop
        invariant
            bytes@ + q@ == old(q)@,
        decreases q@.len(),
    {
        let ghost before = q@;
        match q.pop_front() {
            Some(b) => {
                bytes.push(b);
                assert(bytes@ + q@ =~= old(q)@) by {
                    assert(before =~= seq![b] + q@);
                }
            },
            None => {
                assert(q@.len() == 0);
                assert(bytes@ =~= old(q)@);
                return bytes;
            },
        }
    }
}

impl View for SerialDevice {
    type V = SerialState;

    closed spec fn view(&self) -> SerialState {
        SerialState {
            to_guest: self.tx_queue@.map_values(|m: Vec<u8>| m@),
            stdout: self.rx_stdout@,
            clipboard: self.rx_clipboard@,
            exit_code: self.exit_code,
        }
    }
}

fn has_prefix(data: &[u8], prefix: &[u8; 5]) -> (r: bool)
    ensures
        r == starts_with(data@, prefix@),
{
    if data.len() < 5 {
        return false;
    }
    let mut i: usize = 0;
    while i < 5
        invariant
            i <= 5,
            data@.len() >= 5,
            prefix@.len() == 5,
            forall|j: int| 0 <= j < i ==> data@[j] == prefix@[j],
        decreases 5 - i,
    {
        if data[i] != prefix[i] {
            assert(data@.subrange(0, 5)[i as int] != prefix@[i as int]);
            return false;
        }
        i = i + 1;
    }
    assert(data@.subrange(0, 5) =~= prefix@);
    true
}

impl SerialDevice {
    pub fn new() -> (d: Self)
        ensures
            d@.to_guest == Seq::<Seq<u8>>::empty(),
            d@.stdout == Seq::<u8>::empty(),
            d@.clipboard == Seq::<u8>::empty(),
            d@.exit_code is None,
    {
        let d = SerialDevice {
            tx_queue: VecDeque::new(),
            rx_stdout: VecDeque::new(),
            rx_clipboard: VecDeque::new(),
            exit_code: None,
        };
        assert(d@.to_guest =~= Seq::<Seq<u8>>::empty());
        d
    }

    /// Queues `data` for the guest.
    pub fn send_to_guest(&mut self, data: &[u8])
        ensures
            final(self)@ == old(self)@.with_to_guest(old(self)@.to_guest.push(data@)),
    {
        let mut msg: Vec<u8> = Vec::new();
        push_slice(&mut msg, data);
        self.tx_queue.push_back(msg);
        assert(self@.to_guest =~= old(self)@.to_guest.push(data@));
    }

    /// Queues clipboard text for the guest as `CLIP:<text>\n`.
    pub fn send_clipboard_to_guest(&mut self, text: &str)
        ensures
            final(self)@ == old(self)@.with_to_guest(
                old(self)@.to_guest.push(clip_message(text.spec_bytes())),
            ),
    {
        let mut msg: Vec<u8> = Vec::new();
        msg.push(67);
        msg.push(76);
        msg.push(73);
        msg.push(80);
        msg.push(58);
        push_slice(&mut msg, text.as_bytes());
        msg.push(10);
        assert(msg@ =~= clip_message(text.spec_bytes()));
        self.tx_queue.push_back(msg);
        assert(self@.to_guest =~= old(self)@.to_guest.push(clip_message(text.spec_bytes())));
    }

    /// Takes in data the guest wrote and routes it by its prefix.
    pub fn recv_from_guest(&mut self, data: &[u8])
        ensures
            final(self)@ == old(self)@.received(data@),
    {
        let clip: [u8; 5] = [67, 76, 73, 80, 58];
        let exit: [u8; 5] = [69, 88, 73, 84, 58];
        assert(clip@ =~= clip_prefix());
        assert(exit@ =~= exit_prefix());
        if has_prefix(data, &clip) {
            let rest = vstd::slice::slice_subrange(data, 5, data.len());
            extend_back(&mut self.rx_clipboard, rest);
        } else if has_prefix(data, &exit) {
            let rest = vstd::slice::slice_subrange(data, 5, data.len());
            if let Some(s) = utf8_str(rest) {
                self.exit_code = parse_i32(trim_str(s));
            }
        } else {
            extend_back(&mut self.rx_stdout, data);
        }
        assert(self@ =~= old(self)@.received(data@));
    }

    /// Everything the guest wrote to its output port since the last call, as
    /// text; `None` when there is nothing.
    pub fn drain_stdout(&mut self) -> (out: Option<String>)
        ensures
            old(self)@.stdout.len() == 0 ==> out is None && final(self)@ == old(self)@,
            old(self)@.stdout.len() > 0 ==> {
                &&& out matches Some(s) && s@ == utf8_lossy(old(self)@.stdout)
                &&& final(self)@ == old(self)@.with_stdout(Seq::empty())
            },
    {
        if self.rx_stdout.len() == 0 {
            return None;
        }
        let bytes = drain_all(&mut self.rx_stdout);
        let s = lossy_string(bytes.as_slice());
        assert(self@ =~= old(self)@.with_stdout(Seq::empty()));
        Some(s)
    }

    /// Everything the guest sent as clipboard text since the last call;
    /// `None` when there is nothing.
    pub fn drain_clipboard(&mut self) -> (out: Option<String>)
        ensures
            old(self)@.clipboard.len() == 0 ==> out is None && final(self)@ == old(self)@,
            old(self)@.clipboard.len() > 0 ==> {
                &&& out matches Some(s) && s@ == utf8_lossy(old(self)@.clipboard)
                &&& final(self)@ == old(self)@.with_clipboard(Seq::empty())
            },
    {
        if self.rx_clipboard.len() == 0 {
            return None;
        }
        let bytes = drain_all(&mut self.rx_clipboard);
        let s = lossy_string(bytes.as_slice());
        assert(self@ =~= old(self)@.with_clipboard(Seq::empty()));
        Some(s)
    }

    /// The exit code the guest reported, once.
    pub fn take_exit_code(&mut self) -> (code: Option<i32>)
        ensures
            code == old(self)@.exit_code,
            final(self)@ == old(self)@.with_exit_code(None),
    {
        let code = self.exit_code;
        self.exit_code = None;
        code
    }

    /// The oldest message queued for the guest, removed from the queue.
    pub fn next_tx(&mut self) -> (m: Option<Vec<u8>>)
        ensures
            old(self)@.to_guest.len() == 0 ==> m is None && final(self)@ == old(self)@,
            old(self)@.to_guest.len() > 0 ==> {
                &&& m matches Some(v) && v@ == old(self)@.to_guest[0]
                &&& final(self)@ == old(self)@.with_to_guest(old(self)@.to_guest.drop_first())
            },
    {
        let m = self.tx_queue.pop_front();
        assert(self@.to_guest =~= if old(self)@.to_guest.len() == 0 {
            old(self)@.to_guest
        } else {
            old(self)@.to_guest.drop_first()
        });
        m
    }
}

/// A clipboard message the host sends, when the guest echoes it back, lands
/// whole in the clipboard buffer (text and trailing newline) and touches
/// nothing else.
pub proof fn lemma_clip_message_round_trip(s: SerialState, text_bytes: Seq<u8>)
    ensures
        s.received(clip_message(text_bytes)) == s.with_clipboard(s.clipboard + text_bytes + seq![10u8]),
{
    let m = clip_message(text_bytes);
    assert(m.subrange(0, 5) =~= clip_prefix());
    assert(m.subrange(5, m.len() as int) =~= text_bytes + seq![10u8]);
    assert(s.clipboard + (text_bytes + seq![10u8]) =~= s.clipboard + text_bytes + seq![10u8]);
}

} // verus!
