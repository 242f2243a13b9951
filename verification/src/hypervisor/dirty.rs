//! Changed framebuffer rectangles from a dirty-page log: every logged page
//! of the framebuffer is sent as a band of full-width rows.

use vstd::prelude::*;
use crate::b64::{base64_encode, base64_spec};
use crate::hypervisor::FrameRect;
use crate::bytes::copy_range;

verus! {

/// Bytes in a page of guest memory.
pub const PAGE_SIZE: usize = 4096;

/// Whether page `j` is marked in the log: eight pages per log word, in its
/// low eight bits.
pub open spec fn page_marked(dirty: Seq<u64>, j: int) -> bool {
    dirty[j / 8] & (1u64 << ((j % 8) as u64)) != 0
}

/// The rectangles for pages `j` and up: each marked page that lies wholly in
/// the framebuffer, as (x, y, w, h, base64 of the page's bytes), with `y` its
/// first row and `h` the rows a page holds.
pub open spec fn page_rects_from(dirty: Seq<u64>, fb: Seq<u8>, width: u32, j: int) -> Seq<(u32, u32, u32, u32, Seq<char>)>
    decreases 8 * dirty.len() - j,
{
    if j < 0 || j >= 8 * dirty.len() {
        Seq::empty()
    } else if page_marked(dirty, j) && (j + 1) * 4096 <= fb.len() {
        seq![
            (
                0u32,
                ((j * 4096) / (width * 4)) as u32,
                width,
                (4096int / (width * 4)) as u32,
                base64_spec(fb.subrange(j * 4096, j * 4096 + 4096)),
            ),
        ] + page_rects_from(dirty, fb, width, j + 1)
    } else {
        page_rects_from(dirty, fb, width, j + 1)
    }
}

pub open spec fn rect_view(r: FrameRect) -> (u32, u32, u32, u32, Seq<char>) {
    (r.x, r.y, r.w, r.h, r.data@)
}

/// The rectangles for the pages marked in `dirty` (see `page_rects_from`).
pub fn dirty_page_rects(dirty: &[u64], framebuffer: &[u8], width: u32) -> (r: Vec<FrameRect>)
    requires
        0 < width <= u32::MAX / 4,
        dirty@.len() * 32768 + 4096 <= usize::MAX,
    ensures
        Seq::new(r@.len(), |i: int| rect_view(r@[i])) == page_rects_from(dirty@, framebuffer@, width, 0),
{
    let bytes_per_row = (width * 4) as usize;
    let n = dirty.len() * 8;
    let mut rects: Vec<FrameRect> = Vec::new();
    let mut j: usize = 0;
    while j < n
        invariant
            n == 8 * dirty@.len(),
            j <= n,
            0 < width <= u32::MAX / 4,
            bytes_per_row == width * 4,
            dirty@.len() * 32768 + 4096 <= usize::MAX,
            Seq::new(rects@.len(), |i: int| rect_view(rects@[i])) + page_rects_from(
                dirty@,
                framebuffer@,
                width,
                j as int,
            ) == page_rects_from(dirty@, framebuffer@, width, 0),
        decreases n - j,
    {
        let ghost before = Seq::new(rects@.len(), |i: int| rect_view(rects@[i]));
        let word = dirty[j / 8];
        let bit = (j % 8) as u64;
        let page_addr = j * PAGE_SIZE;
        if word & (1u64 << bit) != 0 && page_addr + PAGE_SIZE <= framebuffer.len() {
            let page = copy_range(framebuffer, page_addr, page_addr + PAGE_SIZE);
            let data = base64_encode(page.as_slice());
            let rect = FrameRect {
                x: 0,
                y: (page_addr / bytes_per_row) as u32,
                w: width,
                h: (PAGE_SIZE / bytes_per_row) as u32,
                data,
            };
            let ghost item = rect_view(rect);
            rects.push(rect);
            proof {
                assert(Seq::new(rects@.len(), |i: int| rect_view(rects@[i])) =~= before.push(item));
                let rest = page_rects_from(dirty@, framebuffer@, width, j + 1);
                assert(before.push(item) + rest =~= before + (seq![item] + rest));
            }
        }
        j = j + 1;
    }
    assert(page_rects_from(dirty@, framebuffer@, width, j as int) =~= Seq::<(u32, u32, u32, u32, Seq<char>)>::empty());
    assert(Seq::new(rects@.len(), |i: int| rect_view(rects@[i])) =~= Seq::new(rects@.len(), |i: int| rect_view(rects@[i])) + Seq::<(u32, u32, u32, u32, Seq<char>)>::empty());
    rects
}

} // verus!
