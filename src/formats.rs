//! Video formats, plane layout, and the tightly packed readback of rendered planes.
use vstd::prelude::*;

use crate::errors::CompositorError;

verus! {

/// The largest width or height of a texture on a device with default limits.
pub const MAX_DIMENSION: u32 = 8192;

/// GPU copies address rows whose pitch is a multiple of this many bytes.
pub const ROW_PITCH_ALIGNMENT: usize = 256;

/// A planar YUV layout: a full-resolution luma plane and two chroma planes.
#[derive(Debug, Clone, Copy, PartialEq, Eq, Structural)]
pub enum PixelFormat {
    /// Chroma halved in both directions.
    I420,
    /// Chroma halved horizontally.
    I422,
    /// Chroma at full resolution.
    I444,
}

/// Chroma subsampling factors (horizontal, vertical) of a format.
pub open spec fn subsampling(f: PixelFormat) -> (int, int) {
    match f {
        PixelFormat::I420 => (2, 2),
        PixelFormat::I422 => (2, 1),
        PixelFormat::I444 => (1, 1),
    }
}

/// A width and height that a video of this format may have.
pub open spec fn valid_resolution(f: PixelFormat, width: int, height: int) -> bool {
    &&& 0 < width <= MAX_DIMENSION
    &&& 0 < height <= MAX_DIMENSION
    &&& width % subsampling(f).0 == 0
    &&& height % subsampling(f).1 == 0
}

/// Width of each chroma plane.
pub open spec fn chroma_width(f: PixelFormat, width: int) -> int {
    width / subsampling(f).0
}

/// Height of each chroma plane.
pub open spec fn chroma_height(f: PixelFormat, height: int) -> int {
    height / subsampling(f).1
}

/// Number of bytes of one frame: the luma plane followed by the two chroma planes.
pub open spec fn frame_len(f: PixelFormat, width: int, height: int) -> int {
    width * height + 2 * (chroma_width(f, width) * chroma_height(f, height))
}

/// Smallest multiple of the row pitch alignment that holds `row` bytes.
pub open spec fn padded_row(row: int) -> int {
    ((row + ROW_PITCH_ALIGNMENT - 1) / ROW_PITCH_ALIGNMENT as int) * ROW_PITCH_ALIGNMENT
}

/// `rows` rows of `row` bytes each, read from `src` where each row starts `pitch`
/// bytes after the previous one.
pub open spec fn packed_rows(src: Seq<u8>, row: int, rows: int, pitch: int) -> Seq<u8> {
    Seq::new((row * rows) as nat, |i: int| src[(i / row) * pitch + i % row])
}

/// Frames per second as a fraction.
#[derive(Debug, Clone, Copy, PartialEq, Eq, Structural)]
pub struct Framerate {
    pub num: u64,
    pub den: u64,
}

/// The raw video format of a stream or of the output.
#[derive(Debug, Clone, Copy, PartialEq, Eq, Structural)]
pub struct RawVideo {
    pub width: u32,
    pub height: u32,
    pub pixel_format: PixelFormat,
    pub framerate: Framerate,
}

impl RawVideo {
    /// The format's fields describe a video the compositor can handle.
    pub open spec fn wf(&self) -> bool {
        &&& valid_resolution(self.pixel_format, self.width as int, self.height as int)
        &&& self.framerate.num > 0
        &&& self.framerate.den > 0
    }

    /// Checks a format and builds it. The resolution is checked first.
    pub fn new(width: u32, height: u32, pixel_format: PixelFormat, framerate: Framerate) -> (r:
        Result<RawVideo, CompositorError>)
        ensures
            !valid_resolution(pixel_format, width as int, height as int) ==> r == Err::<
                RawVideo,
                CompositorError,
            >(CompositorError::BadVideoResolution(width, height)),
            valid_resolution(pixel_format, width as int, height as int) && (framerate.num == 0
                || framerate.den == 0) ==> r == Err::<RawVideo, CompositorError>(
                CompositorError::BadFramerate,
            ),
            valid_resolution(pixel_format, width as int, height as int) && framerate.num > 0
                && framerate.den > 0 ==> r == Ok::<RawVideo, CompositorError>(
                (RawVideo { width, height, pixel_format, framerate }),
            ),
    {
        let (sx, sy): (u32, u32) = match pixel_format {
            PixelFormat::I420 => (2, 2),
            PixelFormat::I422 => (2, 1),
            PixelFormat::I444 => (1, 1),
        };
        if width == 0 || width > MAX_DIMENSION || height == 0 || height > MAX_DIMENSION || width
            % sx != 0 || height % sy != 0 {
            return Err(CompositorError::BadVideoResolution(width, height));
        }
        if framerate.num == 0 || framerate.den == 0 {
            return Err(CompositorError::BadFramerate);
        }
        Ok(RawVideo { width, height, pixel_format, framerate })
    }

    /// Size in bytes of the luma plane's rows and of the chroma planes' rows and rows count:
    /// (luma width, luma height, chroma width, chroma height).
    pub fn plane_sizes(&self) -> (r: (usize, usize, usize, usize))
        requires
            self.wf(),
        ensures
            r.0 == self.width,
            r.1 == self.height,
            r.2 == chroma_width(self.pixel_format, self.width as int),
            r.3 == chroma_height(self.pixel_format, self.height as int),
    {
        let w = self.width as usize;
        let h = self.height as usize;
        match self.pixel_format {
            PixelFormat::I420 => (w, h, w / 2, h / 2),
            PixelFormat::I422 => (w, h, w / 2, h),
            PixelFormat::I444 => (w, h, w, h),
        }
    }

    /// Number of bytes of one tightly packed frame in this format.
    pub fn frame_size(&self) -> (r: usize)
        requires
            self.wf(),
        ensures
            r == frame_len(self.pixel_format, self.width as int, self.height as int),
    {
        let (w, h, cw, ch) = self.plane_sizes();
        assert(w * h <= 8192 * 8192) by (nonlinear_arith)
            requires
                w <= 8192,
                h <= 8192,
        ;
        assert(cw * ch <= w * h) by (nonlinear_arith)
            requires
                cw <= w,
                ch <= h,
        ;
        w * h + 2 * (cw * ch)
    }
}

/// Row pitch, in bytes, of a GPU buffer that holds rows of `row` bytes.
pub fn padded_bytes_per_row(row: usize) -> (r: usize)
    requires
        row <= MAX_DIMENSION,
    ensures
        r == padded_row(row as int),
        row <= r < row + ROW_PITCH_ALIGNMENT,
        r % ROW_PITCH_ALIGNMENT == 0,
{
    let r = ((row + ROW_PITCH_ALIGNMENT - 1) / ROW_PITCH_ALIGNMENT) * ROW_PITCH_ALIGNMENT;
    r
}

/// Appends to `dst` the `rows` rows of `row` bytes that `src` holds with a pitch of
/// `pitch` bytes, leaving out the padding between them.
pub fn append_packed_rows(dst: &mut Vec<u8>, src: &[u8], row: usize, rows: usize, pitch: usize)
    requires
        0 < row <= pitch,
        rows * pitch <= src@.len(),
        old(dst)@.len() + row * rows <= usize::MAX,
    ensures
        final(dst)@ == old(dst)@ + packed_rows(src@, row as int, rows as int, pitch as int),
{
    let ghost start = dst@;
    let src_len = src.len();
    let mut r: usize = 0;
    while r < rows
        invariant
            0 < row <= pitch,
            rows * pitch <= src@.len(),
            src_len == src@.len(),
            start.len() + row * rows <= usize::MAX,
            r <= rows,
            dst@.len() == start.len() + row * r,
            dst@ == start + packed_rows(src@, row as int, r as int, pitch as int),
        decreases rows - r,
    {
        assert(r * pitch + pitch <= rows * pitch) by (nonlinear_arith)
            requires
                r < rows,
        ;
        assert(row * (r + 1) <= row * rows) by (nonlinear_arith)
            requires
                r < rows,
        ;
        let base = r * pitch;
        let ghost before = dst@;
        let mut c: usize = 0;
        while c < row
            invariant
                0 < row <= pitch,
                base == r * pitch,
                base + pitch <= src@.len(),
                src_len == src@.len(),
                start.len() + row * (r + 1) <= usize::MAX,
                c <= row,
                dst@.len() == before.len() + c,
                before == start + packed_rows(src@, row as int, r as int, pitch as int),
                before.len() == start.len() + row * r,
                forall|k: int| 0 <= k < before.len() ==> dst@[k] == before[k],
                forall|k: int| 0 <= k < c ==> #[trigger] dst@[before.len() + k] == src@[base + k],
            decreases row - c,
        {
            dst.push(src[base + c]);
            c += 1;
        }
        proof {
            let next = packed_rows(src@, row as int, (r + 1) as int, pitch as int);
            assert(row * (r + 1) == row * r + row) by (nonlinear_arith);
            assert forall|k: int| 0 <= k < dst@.len() implies dst@[k] == (start + next)[k] by {
                if k < start.len() {
                    assert(dst@[k] == before[k]);
                } else {
                    let i = k - start.len();
                    if i < row * r {
                        assert(dst@[k] == before[k]);
                        assert(next[i] == src@[(i / (row as int)) * pitch + i % (row as int)]);
                        assert(before[k] == packed_rows(
                            src@,
                            row as int,
                            r as int,
                            pitch as int,
                        )[i]);
                    } else {
                        let j = i - row * r;
                        assert(i / (row as int) == r && i % (row as int) == j) by (nonlinear_arith)
                            requires
                                i == row * r + j,
                                0 <= j < row,
                        ;
                        assert(dst@[before.len() + j] == src@[base + j]);
                        assert(next[i] == src@[(i / (row as int)) * pitch + i % (row as int)]);
                    }
                }
            }
            assert(dst@ =~= start + next);
        }
        r += 1;
    }
}

/// The tightly packed frame that the three staged planes of a frame in `caps` hold.
pub open spec fn packed_frame(caps: RawVideo, y: Seq<u8>, u: Seq<u8>, v: Seq<u8>) -> Seq<u8> {
    let w = caps.width as int;
    let h = caps.height as int;
    let cw = chroma_width(caps.pixel_format, w);
    let ch = chroma_height(caps.pixel_format, h);
    packed_rows(y, w, h, padded_row(w)) + packed_rows(u, cw, ch, padded_row(cw)) + packed_rows(
        v,
        cw,
        ch,
        padded_row(cw),
    )
}

/// Reads back one frame: the luma plane `y` and the chroma planes `u` and `v`, each staged
/// with rows padded to the GPU's row pitch, become one buffer with no gaps.
pub fn download(caps: &RawVideo, y: &[u8], u: &[u8], v: &[u8]) -> (r: Vec<u8>)
    requires
        caps.wf(),
        caps.height * padded_row(caps.width as int) <= y@.len(),
        chroma_height(caps.pixel_format, caps.height as int) * padded_row(
            chroma_width(caps.pixel_format, caps.width as int),
        ) <= u@.len(),
        chroma_height(caps.pixel_format, caps.height as int) * padded_row(
            chroma_width(caps.pixel_format, caps.width as int),
        ) <= v@.len(),
    ensures
        r@ == packed_frame(*caps, y@, u@, v@),
        r@.len() == frame_len(caps.pixel_format, caps.width as int, caps.height as int),
{
    let (w, h, cw, ch) = caps.plane_sizes();
    let size = caps.frame_size();
    let mut out: Vec<u8> = Vec::with_capacity(size);
    let luma_pitch = padded_bytes_per_row(w);
    let chroma_pitch = padded_bytes_per_row(cw);
    assert(w * h == h * w && cw * ch == ch * cw) by (nonlinear_arith);
    append_packed_rows(&mut out, y, w, h, luma_pitch);
    append_packed_rows(&mut out, u, cw, ch, chroma_pitch);
    append_packed_rows(&mut out, v, cw, ch, chroma_pitch);
    out
}

} // verus!
