//! Placement of a video on the output canvas.
use vstd::prelude::*;

verus! {

/// A point in 2D space.
#[derive(Debug, Clone, Copy, PartialEq, Eq, Structural)]
pub struct Point<T> {
    pub x: T,
    pub y: T,
}

/// Where and how a video is drawn on the output canvas.
///
/// The video's frames are `size.x` by `size.y` pixels. They are drawn with their top left
/// corner at `top_left`, scaled by `scale_percent / 100`. Where two videos overlap, the one
/// with the smaller `z` is in front.
#[derive(Debug, Clone, Copy, PartialEq, Eq, Structural)]
pub struct VideoPosition {
    pub top_left: Point<u32>,
    pub size: Point<u32>,
    pub z: u32,
    pub scale_percent: u32,
}

/// Width and height, in output pixels, of the drawn area of a video.
pub open spec fn drawn_size(p: VideoPosition) -> (int, int) {
    (p.size.x * p.scale_percent / 100, p.size.y * p.scale_percent / 100)
}

/// The drawn area of a video at `p` holds the output pixel (x, y).
pub open spec fn covers(p: VideoPosition, x: int, y: int) -> bool {
    &&& p.top_left.x <= x < p.top_left.x + drawn_size(p).0
    &&& p.top_left.y <= y < p.top_left.y + drawn_size(p).1
}

impl VideoPosition {
    /// Whether the drawn area of this video holds the output pixel (x, y).
    pub fn covers(&self, x: u32, y: u32) -> (r: bool)
        ensures
            r == covers(*self, x as int, y as int),
    {
        let sx = self.size.x as u64;
        let sy = self.size.y as u64;
        let sc = self.scale_percent as u64;
        assert(sx * sc <= 0xffff_ffff * 0xffff_ffff) by (nonlinear_arith)
            requires
                sx <= 0xffff_ffff,
                sc <= 0xffff_ffff,
        ;
        assert(sy * sc <= 0xffff_ffff * 0xffff_ffff) by (nonlinear_arith)
            requires
                sy <= 0xffff_ffff,
                sc <= 0xffff_ffff,
        ;
        let w = sx * sc / 100;
        let h = sy * sc / 100;
        let x0 = self.top_left.x as u64;
        let y0 = self.top_left.y as u64;
        let x = x as u64;
        let y = y as u64;
        x0 <= x && x - x0 < w && y0 <= y && y - y0 < h
    }
}

} // verus!
