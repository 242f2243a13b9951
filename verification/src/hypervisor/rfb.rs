//! The RFB (VNC) client side of the QEMU display backend: the messages it
//! sends, the server messages it decodes, the pixel conversion, the pointer
//! button state, and the VM state it reports.

use vstd::prelude::*;
use crate::bytes::be16_at;
use crate::hypervisor::VmState;

verus! {

/// The protocol version the client answers with: `RFB 003.008\n`.
pub open spec fn protocol_version_spec() -> Seq<u8> {
    seq![82u8, 70, 66, 32, 48, 48, 51, 46, 48, 48, 56, 10]
}

pub fn protocol_version() -> (v: [u8; 12])
    ensures
        v@ == protocol_version_spec(),
{
    let v: [u8; 12] = [82, 70, 66, 32, 48, 48, 51, 46, 48, 48, 56, 10];
    assert(v@ =~= protocol_version_spec());
    v
}

/// The security type the client picks: None (1) when offered, else the
/// first type offered.
pub fn choose_security(types: &[u8]) -> (t: u8)
    requires
        types@.len() > 0,
    ensures
        t == (if types@.contains(1u8) {
            1u8
        } else {
            types@[0]
        }),
{
    let mut i: usize = 0;
    while i < types.len()
        invariant
            i <= types@.len(),
            forall|j: int| 0 <= j < i ==> types@[j] != 1u8,
        decreases types@.len() - i,
    {
        if types[i] == 1 {
            return 1;
        }
        i = i + 1;
    }
    types[0]
}

/// What ServerInit announces: the framebuffer size and the length of the
/// desktop name that follows.
pub struct ServerInit {
    pub width: u32,
    pub height: u32,
    pub name_len: u32,
}

/// Decodes the fixed part of a ServerInit message.
pub fn parse_server_init(sinit: &[u8; 24]) -> (r: ServerInit)
    ensures
        r.width as int == be16_at(sinit@, 0),
        r.height as int == be16_at(sinit@, 2),
        r.name_len as int == be16_at(sinit@, 20) * 65536 + be16_at(sinit@, 22),
{
    let w = (sinit[0] as u32) * 256 + (sinit[1] as u32);
    let h = (sinit[2] as u32) * 256 + (sinit[3] as u32);
    let hi = (sinit[20] as u32) * 256 + (sinit[21] as u32);
    let lo = (sinit[22] as u32) * 256 + (sinit[23] as u32);
    assert(hi * 65536 <= 0xFFFF_0000) by (nonlinear_arith)
        requires
            hi <= 0xFFFF,
    ;
    ServerInit { width: w, height: h, name_len: hi * 65536 + lo }
}

/// SetEncodings with the Raw encoding only.
pub fn set_encodings_raw() -> (m: [u8; 8])
    ensures
        m@ == seq![2u8, 0, 0, 1, 0, 0, 0, 0],
{
    let m: [u8; 8] = [2, 0, 0, 1, 0, 0, 0, 0];
    assert(m@ =~= seq![2u8, 0, 0, 1, 0, 0, 0, 0]);
    m
}

/// SetPixelFormat: 32 bits per pixel, depth 24, little-endian true colour,
/// 8 bits per channel with red at bit 16, green at 8 and blue at 0.
pub open spec fn pixel_format_message() -> Seq<u8> {
    seq![0u8, 0, 0, 0, 32, 24, 0, 1, 0, 255, 0, 255, 0, 255, 16, 8, 0, 0, 0, 0]
}

pub fn set_pixel_format_bgrx() -> (m: [u8; 20])
    ensures
        m@ == pixel_format_message(),
{
    let m: [u8; 20] = [0, 0, 0, 0, 32, 24, 0, 1, 0, 255, 0, 255, 0, 255, 16, 8, 0, 0, 0, 0];
    assert(m@ =~= pixel_format_message());
    m
}

/// FramebufferUpdateRequest for the whole `w`×`h` screen; each dimension is
/// sent as its low 16 bits.
pub open spec fn update_request_spec(incremental: bool, w: u32, h: u32) -> Seq<u8> {
    seq![
        3u8,
        if incremental {
            1u8
        } else {
            0u8
        },
        0,
        0,
        0,
        0,
        ((w as int / 256) % 256) as u8,
        (w as int % 256) as u8,
        ((h as int / 256) % 256) as u8,
        (h as int % 256) as u8,
    ]
}

pub fn update_request(incremental: bool, w: u32, h: u32) -> (m: Vec<u8>)
    ensures
        m@ == update_request_spec(incremental, w, h),
{
    let mut m: Vec<u8> = Vec::new();
    m.push(3);
    m.push(if incremental {
        1
    } else {
        0
    });
    m.push(0);
    m.push(0);
    m.push(0);
    m.push(0);
    m.push(((w / 256) % 256) as u8);
    m.push((w % 256) as u8);
    m.push(((h / 256) % 256) as u8);
    m.push((h % 256) as u8);
    assert(m@ =~= update_request_spec(incremental, w, h));
    m
}

/// The header of a rectangle in a FramebufferUpdate.
pub struct RectHeader {
    pub x: u32,
    pub y: u32,
    pub w: u32,
    pub h: u32,
    pub encoding: i32,
}

/// Decodes a rectangle header: four big-endian 16-bit fields and a signed
/// big-endian 32-bit encoding.
pub fn parse_rect_header(rhdr: &[u8; 12]) -> (r: RectHeader)
    ensures
        r.x as int == be16_at(rhdr@, 0),
        r.y as int == be16_at(rhdr@, 2),
        r.w as int == be16_at(rhdr@, 4),
        r.h as int == be16_at(rhdr@, 6),
        r.encoding == (be16_at(rhdr@, 8) * 65536 + be16_at(rhdr@, 10)) as i32,
{
    let hi = (rhdr[8] as u32) * 256 + (rhdr[9] as u32);
    let lo = (rhdr[10] as u32) * 256 + (rhdr[11] as u32);
    assert(hi * 65536 <= 0xFFFF_0000) by (nonlinear_arith)
        requires
            hi <= 0xFFFF,
    ;
    let enc = hi * 65536 + lo;
    RectHeader {
        x: (rhdr[0] as u32) * 256 + (rhdr[1] as u32),
        y: (rhdr[2] as u32) * 256 + (rhdr[3] as u32),
        w: (rhdr[4] as u32) * 256 + (rhdr[5] as u32),
        h: (rhdr[6] as u32) * 256 + (rhdr[7] as u32),
        encoding: enc as i32,
    }
}

/// The server-to-client messages the client reads.
#[derive(PartialEq, Eq, Structural, Clone, Copy, Debug)]
pub enum ServerMessage {
    /// Type 0: a header of three bytes, then rectangles.
    FramebufferUpdate,
    /// Type 2: a header of five bytes, then six bytes per colour.
    SetColourMapEntries,
    /// Type 3: nothing follows.
    Bell,
    /// Type 4: a header of seven bytes, then the text.
    ServerCutText,
    Unknown(u8),
}

pub open spec fn server_message_spec(t: u8) -> ServerMessage {
    if t == 0 {
        ServerMessage::FramebufferUpdate
    } else if t == 2 {
        ServerMessage::SetColourMapEntries
    } else if t == 3 {
        ServerMessage::Bell
    } else if t == 4 {
        ServerMessage::ServerCutText
    } else {
        ServerMessage::Unknown(t)
    }
}

/// The kind of server message with type byte `t`.
pub fn server_message(t: u8) -> (m: ServerMessage)
    ensures
        m == server_message_spec(t),
{
    if t == 0 {
        ServerMessage::FramebufferUpdate
    } else if t == 2 {
        ServerMessage::SetColourMapEntries
    } else if t == 3 {
        ServerMessage::Bell
    } else if t == 4 {
        ServerMessage::ServerCutText
    } else {
        ServerMessage::Unknown(t)
    }
}

/// The number of rectangles a FramebufferUpdate header announces.
pub fn update_rect_count(hdr: &[u8; 3]) -> (n: u16)
    ensures
        n as int == be16_at(hdr@, 1),
{
    (hdr[1] as u16) * 256 + (hdr[2] as u16)
}

/// The bytes of a rectangle's pixel data: four per pixel.
pub fn rect_data_len(r: &RectHeader) -> (n: u32)
    requires
        r.w * r.h * 4 <= u32::MAX,
    ensures
        n == r.w * r.h * 4,
{
    r.w * r.h * 4
}

/// The bytes of colour entries after a SetColourMapEntries header: six per
/// colour, their count big-endian at byte 3.
pub fn colour_map_len(hdr: &[u8; 5]) -> (n: u32)
    ensures
        n == be16_at(hdr@, 3) * 6,
{
    ((hdr[3] as u32) * 256 + (hdr[4] as u32)) * 6
}

/// The length of the text after a ServerCutText header, big-endian at byte 3.
pub fn cut_text_len(hdr: &[u8; 7]) -> (n: u32)
    ensures
        n == be16_at(hdr@, 3) * 0x10000 + be16_at(hdr@, 5),
{
    let hi = (hdr[3] as u32) * 256 + (hdr[4] as u32);
    let lo = (hdr[5] as u32) * 256 + (hdr[6] as u32);
    assert(hi * 0x10000 <= 0xFFFF_0000) by (nonlinear_arith)
        requires
            hi <= 0xFFFF,
    ;
    hi * 0x10000 + lo
}

/// Raw pixels arrive as B, G, R, padding; the framebuffer wants R, G, B,
/// opaque alpha. A trailing partial pixel stays as it is.
pub open spec fn rgba_of_bgrx(p: Seq<u8>) -> Seq<u8> {
    Seq::new(
        p.len(),
        |i: int|
            if i < p.len() / 4 * 4 {
                if i % 4 == 0 {
                    p[i + 2]
                } else if i % 4 == 1 {
                    p[i]
                } else if i % 4 == 2 {
                    p[i - 2]
                } else {
                    255u8
                }
            } else {
                p[i]
            },
    )
}

/// Converts raw BGRX pixels to RGBA in place.
pub fn bgrx_to_rgba(pixels: &mut Vec<u8>)
    ensures
        final(pixels)@ == rgba_of_bgrx(old(pixels)@),
{
    let n = pixels.len();
    let full = n / 4 * 4;
    let mut i: usize = 0;
    while i < full
        invariant
            n == pixels@.len(),
            n == old(pixels)@.len(),
            full == n / 4 * 4,
            i <= full,
            i % 4 == 0,
            forall|j: int| 0 <= j < i ==> pixels@[j] == rgba_of_bgrx(old(pixels)@)[j],
            forall|j: int| i <= j < n ==> pixels@[j] == old(pixels)@[j],
        decreases full - i,
    {
        let b = pixels[i];
        let r = pixels[i + 2];
        pixels.set(i, r);
        pixels.set(i + 2, b);
        pixels.set(i + 3, 255);
        i = i + 4;
    }
    assert(pixels@ =~= rgba_of_bgrx(old(pixels)@));
}

/// KeyEvent: type 4, down flag, padding, the keysym big-endian.
pub open spec fn key_event_spec(keysym: u32, down: bool) -> Seq<u8> {
    seq![
        4u8,
        if down {
            1u8
        } else {
            0u8
        },
        0,
        0,
        ((keysym as int / 0x100_0000) % 256) as u8,
        ((keysym as int / 0x1_0000) % 256) as u8,
        ((keysym as int / 0x100) % 256) as u8,
        (keysym as int % 256) as u8,
    ]
}

pub fn key_event(keysym: u32, down: bool) -> (m: [u8; 8])
    ensures
        m@ == key_event_spec(keysym, down),
{
    let m: [u8; 8] = [
        4,
        if down {
            1
        } else {
            0
        },
        0,
        0,
        ((keysym / 0x100_0000) % 256) as u8,
        ((keysym / 0x1_0000) % 256) as u8,
        ((keysym / 0x100) % 256) as u8,
        (keysym % 256) as u8,
    ];
    assert(m@ =~= key_event_spec(keysym, down));
    m
}

/// A pointer coordinate on the wire: negative values become 0, the rest is
/// taken modulo 2^16.
pub open spec fn wire_coord(v: i32) -> int {
    if v < 0 {
        0
    } else {
        v as int % 65536
    }
}

/// PointerEvent: type 5, button mask, x and y big-endian.
pub open spec fn pointer_event_spec(x: i32, y: i32, buttons: u8) -> Seq<u8> {
    seq![
        5u8,
        buttons,
        (wire_coord(x) / 256) as u8,
        (wire_coord(x) % 256) as u8,
        (wire_coord(y) / 256) as u8,
        (wire_coord(y) % 256) as u8,
    ]
}

pub fn pointer_event(x: i32, y: i32, buttons: u8) -> (m: [u8; 6])
    ensures
        m@ == pointer_event_spec(x, y, buttons),
{
    let wx: u32 = if x < 0 {
        0
    } else {
        (x as u32) % 65536
    };
    let wy: u32 = if y < 0 {
        0
    } else {
        (y as u32) % 65536
    };
    let m: [u8; 6] = [5, buttons, (wx / 256) as u8, (wx % 256) as u8, (wy / 256) as u8, (wy % 256) as u8];
    assert(m@ =~= pointer_event_spec(x, y, buttons));
    m
}

/// A pointer event to send: position and button mask.
#[derive(PartialEq, Eq, Structural, Clone, Copy, Debug)]
pub struct PointerEvent {
    pub x: i32,
    pub y: i32,
    pub buttons: u8,
}

/// The pointer events a pointer command produces from button mask `mask`,
/// and the mask afterwards. Commands: `0` moves with the held buttons;
/// `0x80 | bits` presses `bits & 7`; `0x40 | bits` releases them; `0x08` is a
/// wheel step (`y` its direction), sent as a press and release of button 4
/// (up) or 5 (down) at the origin; anything else moves with the held buttons.
pub open spec fn pointer_command(mask: u8, cmd: u8, x: i32, y: i32) -> (u8, Seq<PointerEvent>) {
    if cmd == 0 {
        (mask, seq![PointerEvent { x, y, buttons: mask }])
    } else if cmd & 0x80 != 0 {
        let m = mask | (cmd & 0x07);
        (m, seq![PointerEvent { x, y, buttons: m }])
    } else if cmd & 0x40 != 0 {
        let m = mask & !(cmd & 0x07);
        (m, seq![PointerEvent { x, y, buttons: m }])
    } else if cmd & 0x08 != 0 {
        if y == 0 {
            (mask, Seq::empty())
        } else {
            let bit: u8 = if y < 0 {
                8
            } else {
                16
            };
            (
                mask,
                seq![
                    PointerEvent { x: 0, y: 0, buttons: mask | bit },
                    PointerEvent { x: 0, y: 0, buttons: mask },
                ],
            )
        }
    } else {
        (mask, seq![PointerEvent { x, y, buttons: mask }])
    }
}

/// The mouse buttons held down, as the RFB server was last told.
pub struct PointerState {
    pub button_mask: u8,
}

impl PointerState {
    pub fn new() -> (s: Self)
        ensures
            s.button_mask == 0,
    {
        PointerState { button_mask: 0 }
    }

    /// Applies a pointer command (see `pointer_command`) and returns the
    /// events to send.
    pub fn apply(&mut self, x: i32, y: i32, cmd: u8) -> (events: Vec<PointerEvent>)
        ensures
            (final(self).button_mask, events@) == pointer_command(old(self).button_mask, cmd, x, y),
    {
        let mut events: Vec<PointerEvent> = Vec::new();
        if cmd == 0 {
            events.push(PointerEvent { x, y, buttons: self.button_mask });
        } else if cmd & 0x80 != 0 {
            self.button_mask = self.button_mask | (cmd & 0x07);
            events.push(PointerEvent { x, y, buttons: self.button_mask });
        } else if cmd & 0x40 != 0 {
            self.button_mask = self.button_mask & !(cmd & 0x07);
            events.push(PointerEvent { x, y, buttons: self.button_mask });
        } else if cmd & 0x08 != 0 {
            if y != 0 {
                let bit: u8 = if y < 0 {
                    8
                } else {
                    16
                };
                events.push(PointerEvent { x: 0, y: 0, buttons: self.button_mask | bit });
                events.push(PointerEvent { x: 0, y: 0, buttons: self.button_mask });
            }
        } else {
            events.push(PointerEvent { x, y, buttons: self.button_mask });
        }
        assert(events@ =~= pointer_command(old(self).button_mask, cmd, x, y).1);
        events
    }
}

/// A release undoes a press: pressing buttons and then releasing the same
/// buttons gives back the mask held before, provided none of them was held.
pub proof fn lemma_press_release(mask: u8, bits: u8)
    requires
        bits & 0x07 == bits,
        mask & bits == 0,
    ensures
        pointer_command(pointer_command(mask, 0x80 | bits, 0, 0).0, 0x40 | bits, 0, 0).0 == mask,
{
    assert((0x80u8 | bits) & 0x80u8 != 0 && (0x80u8 | bits) & 0x07u8 == bits && (0x80u8 | bits) != 0) by (bit_vector)
        requires
            bits & 0x07u8 == bits,
    ;
    assert((0x40u8 | bits) & 0x80u8 == 0 && (0x40u8 | bits) & 0x40u8 != 0 && (0x40u8 | bits) & 0x07u8 == bits
        && (0x40u8 | bits) != 0) by (bit_vector)
        requires
            bits & 0x07u8 == bits,
    ;
    assert((mask | bits) & !bits == mask) by (bit_vector)
        requires
            mask & bits == 0u8,
    ;
}

/// The state reported when polled: a starting or running VM whose display
/// connection failed is in error; a starting VM whose display connected is
/// running; otherwise the state stands.
pub open spec fn polled_state_spec(state: VmState, failed: bool, connected: bool) -> VmState {
    if state == VmState::Starting || state == VmState::Running {
        if failed {
            VmState::Error
        } else if state == VmState::Starting && connected {
            VmState::Running
        } else {
            state
        }
    } else {
        state
    }
}

pub fn polled_state(state: VmState, failed: bool, connected: bool) -> (s: VmState)
    ensures
        s == polled_state_spec(state, failed, connected),
{
    if state == VmState::Starting || state == VmState::Running {
        if failed {
            VmState::Error
        } else if state == VmState::Starting && connected {
            VmState::Running
        } else {
            state
        }
    } else {
        state
    }
}

/// The state once changed rectangles were handed out: the first frame makes
/// a starting VM running.
pub fn state_after_frame(state: VmState, got_rects: bool) -> (s: VmState)
    ensures
        s == (if got_rects && state == VmState::Starting {
            VmState::Running
        } else {
            state
        }),
{
    if got_rects && state == VmState::Starting {
        VmState::Running
    } else {
        state
    }
}

} // verus!
