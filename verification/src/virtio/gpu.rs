//! virtio-gpu: the guest's framebuffer. It remembers the frame last handed
//! out, so that only changes travel to the UI: whole frames (base64 or
//! binary) or the bands of rows that changed.

use vstd::prelude::*;
use crate::b64::{base64_encode, base64_spec};
use crate::bytes::{le32_bytes, push_u32_le, push_slice, copy_range};
use crate::hypervisor::{FrameRect, FrameSnapshot};

verus! {

pub const DEFAULT_W: u32 = 1024;

pub const DEFAULT_H: u32 = 768;

/// RGBA.
pub const BYTES_PER_PIXEL: u32 = 4;

pub struct GpuDevice {
    pub width: u32,
    pub height: u32,
    pub framebuffer: Vec<u8>,
    prev_framebuffer: Vec<u8>,
    dirty: bool,
    force_full: bool,
}

/// The device's state: the current frame, the frame last handed out, and
/// whether the frame changed since.
pub ghost struct GpuState {
    pub width: u32,
    pub height: u32,
    pub frame: Seq<u8>,
    pub prev: Seq<u8>,
    pub dirty: bool,
    pub force_full: bool,
}

impl GpuState {
    /// Bytes per row.
    pub open spec fn stride(self) -> int {
        self.width * 4
    }

    /// The state once the current frame has been handed out.
    pub open spec fn taken(self) -> GpuState {
        GpuState { prev: self.frame, dirty: false, ..self }
    }
}

/// Whether row `r` differs between `frame` and `prev`.
pub open spec fn row_dirty(frame: Seq<u8>, prev: Seq<u8>, stride: int, r: int) -> bool {
    frame.subrange(r * stride, (r + 1) * stride) != prev.subrange(r * stride, (r + 1) * stride)
}

/// For each of the first `n` rows, whether it changed.
pub open spec fn dirty_rows(frame: Seq<u8>, prev: Seq<u8>, stride: int, n: int) -> Seq<bool> {
    Seq::new(n as nat, |r: int| row_dirty(frame, prev, stride, r))
}

/// The maximal runs of `true` in `d`, as half-open ranges in increasing order:
/// each `true` after a `false` (or at the start) opens a run, each `true`
/// after a `true` extends the open one.
pub open spec fn runs(d: Seq<bool>) -> Seq<(int, int)>
    decreases d.len(),
{
    if d.len() == 0 {
        Seq::empty()
    } else {
        let p = runs(d.drop_last());
        let n = d.len() - 1;
        if !d[n] {
            p
        } else if n > 0 && d[n - 1] {
            p.update(p.len() - 1, (p.last().0, n + 1))
        } else {
            p.push((n, n + 1))
        }
    }
}

/// The rectangle for the band of rows `run` of a frame.
pub open spec fn rect_matches(r: FrameRect, run: (int, int), frame: Seq<u8>, width: u32) -> bool {
    &&& r.x == 0
    &&& r.y == run.0
    &&& r.w == width
    &&& r.h == run.1 - run.0
    &&& r.data@ == base64_spec(frame.subrange(run.0 * (width * 4), run.1 * (width * 4)))
}

/// Row `row` of a region update: `w` pixels from `data` into row `y + row`
/// of the frame at column `x`, skipped when either side is too short.
pub open spec fn region_row_written(
    frame: Seq<u8>,
    x: int,
    y: int,
    w: int,
    data: Seq<u8>,
    stride: int,
    row: int,
) -> Seq<u8> {
    let src = row * w * 4;
    let dst = (y + row) * stride + x * 4;
    let len = w * 4;
    if dst + len <= frame.len() && src + len <= data.len() {
        frame.subrange(0, dst) + data.subrange(src, src + len) + frame.subrange(
            dst + len,
            frame.len() as int,
        )
    } else {
        frame
    }
}

/// The first `h` rows of a region update, applied top to bottom.
pub open spec fn region_written(
    frame: Seq<u8>,
    x: int,
    y: int,
    w: int,
    h: int,
    data: Seq<u8>,
    stride: int,
) -> Seq<u8>
    decreases h,
{
    if h <= 0 {
        frame
    } else {
        region_row_written(region_written(frame, x, y, w, h - 1, data, stride), x, y, w, data, stride, h - 1)
    }
}

/// Whether the u32 arithmetic of a region update stays in range.
pub open spec fn region_in_range(width: u32, x: u32, y: u32, w: u32, h: u32) -> bool {
    h == 0 || {
        &&& (h - 1) * w * 4 <= u32::MAX
        &&& w * 4 <= u32::MAX
        &&& x * 4 <= u32::MAX
        &&& y + h - 1 <= u32::MAX
        &&& (y + h - 1) * (width * 4) + x * 4 <= u32::MAX
    }
}

fn push_repeat(out: &mut Vec<u8>, n: usize, b: u8)
    ensures
        final(out)@ == old(out)@ + Seq::new(n as nat, |i: int| b),
{
    let mut i: usize = 0;
    while i < n
        invariant
            i <= n,
            out@ == old(out)@ + Seq::new(i as nat, |j: int| b),
        decreases n - i,
    {
        out.push(b);
        i = i + 1;
        assert(out@ =~= old(out)@ + Seq::new(i as nat, |j: int| b));
    }
}

fn copy_into(dst: &mut Vec<u8>, dst_off: usize, src: &[u8], src_off: usize, len: usize)
    requires
        dst_off + len <= old(dst)@.len(),
        src_off + len <= src@.len(),
    ensures
        final(dst)@ == old(dst)@.subrange(0, dst_off as int) + src@.subrange(
            src_off as int,
            src_off + len,
        ) + old(dst)@.subrange(dst_off + len, old(dst)@.len() as int),
{
    let dlen = dst.len();
    let slen = src.len();
    let mut i: usize = 0;
    while i < len
        invariant
            i <= len,
            dlen == dst@.len(),
            dlen == old(dst)@.len(),
            slen == src@.len(),
            dst_off + len <= old(dst)@.len(),
            src_off + len <= src@.len(),
            dst@ == old(dst)@.subrange(0, dst_off as int) + src@.subrange(
                src_off as int,
                src_off + i,
            ) + old(dst)@.subrange(dst_off + i, old(dst)@.len() as int),
        decreases len - i,
    {
        dst.set(dst_off + i, src[src_off + i]);
        i = i + 1;
        assert(dst@ =~= old(dst)@.subrange(0, dst_off as int) + src@.subrange(
            src_off as int,
            src_off + i,
        ) + old(dst)@.subrange(dst_off + i, old(dst)@.len() as int));
    }
}

fn range_eq(a: &Vec<u8>, b: &Vec<u8>, from: usize, to: usize) -> (r: bool)
    requires
        from <= to <= a@.len(),
        to <= b@.len(),
    ensures
        r == (a@.subrange(from as int, to as int) == b@.subrange(from as int, to as int)),
{
    let mut i = from;
    while i < to
        invariant
            from <= i <= to,
            to <= a@.len(),
            to <= b@.len(),
            forall|j: int| from <= j < i ==> a@[j] == b@[j],
        decreases to - i,
    {
        if a[i] != b[i] {
            assert(a@.subrange(from as int, to as int)[i - from] != b@.subrange(from as int, to as int)[i - from]);
            return false;
        }
        i = i + 1;
    }
    assert(a@.subrange(from as int, to as int) =~= b@.subrange(from as int, to as int));
    true
}

impl View for GpuDevice {
    type V = GpuState;

    closed spec fn view(&self) -> GpuState {
        GpuState {
            width: self.width,
            height: self.height,
            frame: self.framebuffer@,
            prev: self.prev_framebuffer@,
            dirty: self.dirty,
            force_full: self.force_full,
        }
    }
}

impl GpuDevice {
    /// Both frames hold `width * height` RGBA pixels, and that size fits in a
    /// `u32` and leaves room for its base64 text in memory.
    pub open spec fn wf(&self) -> bool {
        &&& self@.width * self@.height * 4 <= u32::MAX
        &&& self@.width * self@.height * 4 <= usize::MAX / 2
        &&& self@.frame.len() == self@.width * self@.height * 4
        &&& self@.prev.len() == self@.frame.len()
    }

    pub fn new() -> (g: Self)
        ensures
            g.wf(),
            g@.width == DEFAULT_W,
            g@.height == DEFAULT_H,
            g@.frame == Seq::new((DEFAULT_W * DEFAULT_H * 4) as nat, |i: int| 0u8),
            g@.prev == g@.frame,
            !g@.dirty,
            !g@.force_full,
    {
        let size = (DEFAULT_W * DEFAULT_H * BYTES_PER_PIXEL) as usize;
        let mut framebuffer: Vec<u8> = Vec::new();
        push_repeat(&mut framebuffer, size, 0);
        let mut prev_framebuffer: Vec<u8> = Vec::new();
        push_repeat(&mut prev_framebuffer, size, 0);
        assert(framebuffer@ =~= Seq::new((DEFAULT_W * DEFAULT_H * 4) as nat, |i: int| 0u8));
        assert(prev_framebuffer@ =~= framebuffer@);
        GpuDevice {
            width: DEFAULT_W,
            height: DEFAULT_H,
            framebuffer,
            prev_framebuffer,
            dirty: false,
            force_full: false,
        }
    }

    /// Changes the frame size. The frame keeps its leading bytes (cut or padded
    /// with zero), and the remembered frame becomes all `0xFF`, so that the
    /// next frame counts as changed.
    pub fn resize(&mut self, w: u32, h: u32)
        requires
            w * h * 4 <= u32::MAX,
            w * h * 4 <= usize::MAX / 2,
        ensures
            final(self).wf(),
            final(self)@.width == w,
            final(self)@.height == h,
            final(self)@.frame == (if w * h * 4 <= old(self)@.frame.len() {
                old(self)@.frame.subrange(0, w * h * 4)
            } else {
                old(self)@.frame + Seq::new((w * h * 4 - old(self)@.frame.len()) as nat, |i: int| 0u8)
            }),
            final(self)@.prev == Seq::new((w * h * 4) as nat, |i: int| 0xFFu8),
            final(self)@.dirty,
            !final(self)@.force_full,
    {
        self.width = w;
        self.height = h;
        let size = (w * h * BYTES_PER_PIXEL) as usize;
        if size <= self.framebuffer.len() {
            self.framebuffer.truncate(size);
        } else {
            let extra = size - self.framebuffer.len();
            push_repeat(&mut self.framebuffer, extra, 0);
        }
        let mut prev: Vec<u8> = Vec::new();
        push_repeat(&mut prev, size, 0xFF);
        self.prev_framebuffer = prev;
        self.dirty = true;
        self.force_full = false;
    }

    /// Copies a `w`×`h` block of RGBA pixels from `data` to column `x`, row
    /// `y`; rows that do not fit in the frame or in `data` are skipped.
    pub fn update_region(&mut self, x: u32, y: u32, w: u32, h: u32, data: &[u8])
        requires
            old(self).wf(),
            old(self)@.width * 4 <= u32::MAX,
            region_in_range(old(self)@.width, x, y, w, h),
        ensures
            final(self).wf(),
            final(self)@ == (GpuState {
                frame: region_written(
                    old(self)@.frame,
                    x as int,
                    y as int,
                    w as int,
                    h as int,
                    data@,
                    old(self)@.stride(),
                ),
                dirty: true,
                ..old(self)@
            }),
    {
        let stride = self.width * BYTES_PER_PIXEL;
        let ghost start = self@.frame;
        let mut row: u32 = 0;
        while row < h
            invariant
                row <= h,
                self.wf(),
                self@.width * 4 <= u32::MAX,
                self@.width == old(self)@.width,
                self@.height == old(self)@.height,
                self@.prev == old(self)@.prev,
                self@.dirty == old(self)@.dirty,
                self@.force_full == old(self)@.force_full,
                stride == self@.width * 4,
                region_in_range(self@.width, x, y, w, h),
                self@.frame == region_written(start, x as int, y as int, w as int, row as int, data@, stride as int),
            decreases h - row,
        {
            assert(row * w * 4 <= u32::MAX && (y + row) * stride + x * 4 <= u32::MAX) by (nonlinear_arith)
                requires
                    row < h,
                    (h - 1) * w * 4 <= u32::MAX,
                    (y + h - 1) * stride + x * 4 <= u32::MAX,
                    stride >= 0,
            ;
            let src_off = (row * w * BYTES_PER_PIXEL) as usize;
            let dst_off = ((y + row) * stride + x * BYTES_PER_PIXEL) as usize;
            let len = (w * BYTES_PER_PIXEL) as usize;
            if (dst_off as u64) + (len as u64) <= self.framebuffer.len() as u64 && (src_off as u64)
                + (len as u64) <= data.len() as u64 {
                copy_into(&mut self.framebuffer, dst_off, data, src_off, len);
            }
            row = row + 1;
        }
        self.dirty = true;
    }

    /// The bands of changed rows since the frame was last handed out, one
    /// rectangle per maximal band; then the current frame counts as handed
    /// out. Nothing, and no change, when the frame did not change.
    pub fn take_dirty_rects(&mut self) -> (rects: Vec<FrameRect>)
        requires
            old(self).wf(),
            old(self)@.dirty ==> old(self)@.width * 4 <= u32::MAX,
        ensures
            final(self).wf(),
            !old(self)@.dirty ==> rects@.len() == 0 && final(self)@ == old(self)@,
            old(self)@.dirty ==> {
                let rs = runs(
                    dirty_rows(old(self)@.frame, old(self)@.prev, old(self)@.stride(), old(self)@.height as int),
                );
                &&& final(self)@ == old(self)@.taken()
                &&& rects@.len() == rs.len()
                &&& forall|i: int|
                    0 <= i < rs.len() ==> rect_matches(
                        #[trigger] rects@[i],
                        rs[i],
                        old(self)@.frame,
                        old(self)@.width,
                    )
            },
    {
        let mut rects: Vec<FrameRect> = Vec::new();
        if !self.dirty {
            return rects;
        }
        let stride = (self.width * BYTES_PER_PIXEL) as usize;
        assert(self@.height * stride == self@.frame.len()) by (nonlinear_arith)
            requires
                stride == self@.width * 4,
                self@.frame.len() == self@.width * self@.height * 4,
        ;
        let ghost d = dirty_rows(self@.frame, self@.prev, stride as int, self@.height as int);
        let mut dirty_start: Option<u32> = None;
        let mut row: u32 = 0;
        while row < self.height
            invariant
                self.wf(),
                self@ == old(self)@,
                row <= self@.height,
                stride == self@.width * 4,
                self@.height * stride == self@.frame.len(),
                d == dirty_rows(self@.frame, self@.prev, stride as int, self@.height as int),
                forall|i: int|
                    0 <= i < rects@.len() ==> rect_matches(
                        #[trigger] rects@[i],
                        runs(d.take(row as int))[i],
                        self@.frame,
                        self@.width,
                    ),
                dirty_start is None ==> {
                    &&& rects@.len() == runs(d.take(row as int)).len()
                    &&& (row == 0 || !d[row - 1])
                },
                dirty_start matches Some(s) ==> {
                    &&& rects@.len() + 1 == runs(d.take(row as int)).len()
                    &&& runs(d.take(row as int)).last() == (s as int, row as int)
                    &&& s < row
                    &&& d[row - 1]
                },
            decreases self@.height - row,
        {
            assert((row + 1) * stride <= self@.height * stride && row * stride + stride == (row + 1) * stride) by (nonlinear_arith)
                requires
                    row < self@.height,
            ;
            let off = (row as usize) * stride;
            let end = off + stride;
            assert(off == row * stride) by (nonlinear_arith)
                requires
                    off == row * stride,
            ;
            let row_dirty = !range_eq(&self.framebuffer, &self.prev_framebuffer, off, end);
            assert(row_dirty == d[row as int]);
            proof {
                assert(d.take(row + 1).drop_last() =~= d.take(row as int));
                assert(d.take(row + 1)[row as int] == d[row as int]);
                if row > 0 {
                    assert(d.take(row + 1)[row - 1] == d[row - 1]);
                }
            }
            match dirty_start {
                None => {
                    if row_dirty {
                        dirty_start = Some(row);
                    }
                },
                Some(start) => {
                    if !row_dirty {
                        let h = row - start;
                        assert(start * stride <= row * stride <= self@.frame.len()) by (nonlinear_arith)
                            requires
                                start < row,
                                row <= self@.height,
                                self@.frame.len() == self@.height * stride,
                        ;
                        let data_off = (start as usize) * stride;
                        let data_end = (row as usize) * stride;
                        assert(data_off <= data_end <= self@.frame.len()) by (nonlinear_arith)
                            requires
                                data_off == start * stride,
                                data_end == row * stride,
                                start < row,
                                row <= self@.height,
                                self@.frame.len() == self@.height * stride,
                        ;
                        let bytes = copy_range(self.framebuffer.as_slice(), data_off, data_end);
                        let data = base64_encode(bytes.as_slice());
                        let rect = FrameRect { x: 0, y: start, w: self.width, h, data };
                        let ghost prev_runs = runs(d.take(row as int));
                        rects.push(rect);
                        dirty_start = None;
                        assert(runs(d.take(row + 1)) == prev_runs);
                        assert(rect_matches(rects@[rects@.len() - 1], prev_runs.last(), self@.frame, self@.width));
                    }
                },
            }
            row = row + 1;
        }
        if let Some(start) = dirty_start {
            let h = self.height - start;
            assert(start * stride <= self@.frame.len()) by (nonlinear_arith)
                requires
                    start < self@.height,
                    self@.frame.len() == self@.height * stride,
            ;
            let data_off = (start as usize) * stride;
            assert(data_off <= self@.frame.len()) by (nonlinear_arith)
                requires
                    data_off == start * stride,
                    start < self@.height,
                    self@.frame.len() == self@.height * stride,
            ;
            let bytes = copy_range(self.framebuffer.as_slice(), data_off, self.framebuffer.len());
            let data = base64_encode(bytes.as_slice());
            rects.push(FrameRect { x: 0, y: start, w: self.width, h, data });
            assert(rect_matches(rects@[rects@.len() - 1], runs(d.take(row as int)).last(), self@.frame, self@.width));
            assert(forall|i: int|
                0 <= i < rects@.len() ==> rect_matches(
                    #[trigger] rects@[i],
                    runs(d.take(row as int))[i],
                    self@.frame,
                    self@.width,
                ));
        }
        assert(d.take(self@.height as int) =~= d);
        let copy = copy_range(self.framebuffer.as_slice(), 0, self.framebuffer.len());
        assert(copy@ =~= self@.frame);
        self.prev_framebuffer = copy;
        self.dirty = false;
        assert(self@ =~= old(self)@.taken());
        rects
    }

    /// The whole frame if it changed since it was last handed out, which it
    /// then counts as; `None` otherwise.
    pub fn take_snapshot(&mut self) -> (snap: Option<FrameSnapshot>)
        requires
            old(self).wf(),
        ensures
            final(self).wf(),
            !old(self)@.dirty ==> snap is None && final(self)@ == old(self)@,
            old(self)@.dirty ==> {
                &&& final(self)@ == old(self)@.taken()
                &&& snap matches Some(s) && s.w == old(self)@.width && s.h == old(self)@.height
                    && s.data@ == base64_spec(old(self)@.frame)
            },
    {
        if !self.dirty {
            return None;
        }
        let copy = copy_range(self.framebuffer.as_slice(), 0, self.framebuffer.len());
        assert(copy@ =~= self@.frame);
        self.prev_framebuffer = copy;
        self.dirty = false;
        assert(self@ =~= old(self)@.taken());
        Some(FrameSnapshot {
            w: self.width,
            h: self.height,
            data: base64_encode(self.framebuffer.as_slice()),
        })
    }

    /// The whole frame as `[w: u32 LE | h: u32 LE | rgba ...]` if it changed
    /// since it was last handed out, which it then counts as; empty otherwise.
    pub fn take_snapshot_bin(&mut self) -> (out: Vec<u8>)
        requires
            old(self).wf(),
        ensures
            final(self).wf(),
            !old(self)@.dirty ==> out@.len() == 0 && final(self)@ == old(self)@,
            old(self)@.dirty ==> {
                &&& final(self)@ == old(self)@.taken()
                &&& out@ == le32_bytes(old(self)@.width as int) + le32_bytes(old(self)@.height as int)
                    + old(self)@.frame
            },
    {
        if !self.dirty {
            return Vec::new();
        }
        let copy = copy_range(self.framebuffer.as_slice(), 0, self.framebuffer.len());
        assert(copy@ =~= self@.frame);
        self.prev_framebuffer = copy;
        self.dirty = false;
        let mut out: Vec<u8> = Vec::new();
        push_u32_le(&mut out, self.width);
        push_u32_le(&mut out, self.height);
        push_slice(&mut out, self.framebuffer.as_slice());
        assert(self@ =~= old(self)@.taken());
        out
    }
}

/// Handing out a frame is idempotent: once handed out, the frame counts as
/// unchanged until it is written again, so an immediate second take gives
/// nothing.
pub proof fn lemma_take_idempotent(s: GpuState)
    ensures
        !s.taken().dirty,
        s.taken().taken() == s.taken(),
{
}

} // verus!
