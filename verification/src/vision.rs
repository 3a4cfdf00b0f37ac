//! Grayscale and RGB camera frames: converting a YUYV capture to gray, and
//! halving a frame for a preview.

use vstd::prelude::*;

verus! {

/// A grayscale frame: row-major luminance, `width * height` bytes.
#[derive(Clone, Debug)]
pub struct GrayFrame {
    pub width: u32,
    pub height: u32,
    pub pixels: Vec<u8>,
}

impl GrayFrame {
    /// A frame of the given size; `pixels` holds `width * height` bytes.
    pub fn new(width: u32, height: u32, pixels: Vec<u8>) -> (r: GrayFrame)
        requires
            pixels@.len() == width * height,
        ensures
            r.width == width,
            r.height == height,
            r.pixels@ == pixels@,
    {
        GrayFrame { width, height, pixels }
    }
}

/// The luminance of a YUYV capture: byte `2 * i` for pixel `i`, or 0 past the
/// end of the buffer.
pub open spec fn gray_of(buf: Seq<u8>, width: u32, height: u32) -> Seq<u8> {
    Seq::new((width * height) as nat, |i: int| if 2 * i < buf.len() { buf[2 * i] } else { 0u8 })
}

/// Converts a YUYV capture to a grayscale frame by taking each pixel's
/// luminance byte.
pub fn yuyv_to_gray(buf: &[u8], width: u32, height: u32) -> (r: GrayFrame)
    requires
        width * height <= u32::MAX,
    ensures
        r.width == width,
        r.height == height,
        r.pixels@ == gray_of(buf@, width, height),
{
    let count = (width * height) as usize;
    let mut pixels: Vec<u8> = Vec::new();
    let mut i: usize = 0;
    while i < count
        invariant
            i <= count,
            count == width * height,
            pixels@.len() == i,
            forall|k: int| 0 <= k < i ==> pixels@[k] == (if 2 * k < buf@.len() { buf@[2 * k] } else { 0u8 }),
        decreases count - i,
    {
        let v = if buf.len() > 0 && i <= (buf.len() - 1) / 2 {
            buf[i * 2]
        } else {
            0
        };
        pixels.push(v);
        i = i + 1;
    }
    assert(pixels@ =~= gray_of(buf@, width, height));
    GrayFrame::new(width, height, pixels)
}

proof fn lemma_half_index(x: int, y: int, w: int, h: int, width: int, height: int)
    requires
        0 <= x < w,
        0 <= y < h,
        w == width / 2,
        h == height / 2,
        width >= 0,
        height >= 0,
    ensures
        0 <= 2 * y * width + 2 * x < width * height,
        y * w + x < w * h,
        0 <= y * w + x,
{
    assert(2 * y + 2 <= height);
    assert(2 * x + 1 < width);
    assert(2 * y * width + 2 * x < (2 * y + 1) * width) by (nonlinear_arith)
        requires
            2 * x + 1 < width,
            0 <= x,
            0 <= y,
    ;
    assert((2 * y + 1) * width <= height * width) by (nonlinear_arith)
        requires
            2 * y + 2 <= height,
            width >= 0,
    ;
    assert(0 <= 2 * y * width + 2 * x) by (nonlinear_arith)
        requires
            0 <= x,
            0 <= y,
            width >= 0,
    ;
    assert(y * w + x < w * h) by (nonlinear_arith)
        requires
            0 <= x < w,
            0 <= y < h,
    ;
    assert(0 <= y * w + x) by (nonlinear_arith)
        requires
            0 <= x,
            0 <= y,
            w >= 0,
    ;
    assert(width * height == height * width) by (nonlinear_arith);
}

/// The frame halved in each direction by keeping every second pixel of every
/// second row.
pub open spec fn halved(pixels: Seq<u8>, width: u32, height: u32) -> Seq<u8> {
    let w = (width / 2) as int;
    let h = (height / 2) as int;
    Seq::new((w * h) as nat, |k: int| pixels[2 * (k / w) * width + 2 * (k % w)])
}

/// Downscales a grayscale frame 2x by nearest sampling.
pub fn downscale2(frame: &GrayFrame) -> (r: (u32, u32, Vec<u8>))
    requires
        frame.pixels@.len() == frame.width * frame.height,
        frame.width * frame.height <= u32::MAX,
    ensures
        r.0 == frame.width / 2,
        r.1 == frame.height / 2,
        r.2@ == halved(frame.pixels@, frame.width, frame.height),
{
    let width = frame.width;
    let height = frame.height;
    let w = width / 2;
    let h = height / 2;
    let mut out: Vec<u8> = Vec::new();
    let mut y: u32 = 0;
    while y < h
        invariant
            y <= h,
            w == width / 2,
            h == height / 2,
            width == frame.width,
            height == frame.height,
            frame.pixels@.len() == width * height,
            width * height <= u32::MAX,
            out@.len() == y * w,
            forall|k: int| 0 <= k < out@.len() ==> #[trigger] out@[k] == frame.pixels@[2 * (k / w as int) * width + 2 * (k % w as int)],
        decreases h - y,
    {
        let mut x: u32 = 0;
        while x < w
            invariant
                x <= w,
                y < h,
                w == width / 2,
                h == height / 2,
                width == frame.width,
                height == frame.height,
                frame.pixels@.len() == width * height,
                width * height <= u32::MAX,
                out@.len() == y * w + x,
                forall|k: int| 0 <= k < out@.len() ==> #[trigger] out@[k] == frame.pixels@[2 * (k / w as int) * width + 2 * (k % w as int)],
            decreases w - x,
        {
            proof {
                lemma_half_index(x as int, y as int, w as int, h as int, width as int, height as int);
                let k = y * w + x;
                assert(k / (w as int) == y as int && k % (w as int) == x as int) by (nonlinear_arith)
                    requires
                        k == y * w + x,
                        0 <= x < w,
                        0 <= y,
                ;
            }
            let idx = (y * 2) * width + x * 2;
            out.push(frame.pixels[idx as usize]);
            x = x + 1;
        }
        proof {
            assert((y + 1) * w == y * w + w) by (nonlinear_arith);
        }
        y = y + 1;
    }
    proof {
        assert(h * w == w * h) by (nonlinear_arith);
    }
    assert(out@ =~= halved(frame.pixels@, width, height));
    (w, h, out)
}

/// An RGB frame halved in each direction by keeping every second pixel of
/// every second row (three bytes a pixel).
pub open spec fn halved_rgb(rgb: Seq<u8>, width: u32, height: u32) -> Seq<u8> {
    let w = (width / 2) as int;
    let h = (height / 2) as int;
    Seq::new((w * h * 3) as nat, |k: int| rgb[3 * (2 * ((k / 3) / w) * width + 2 * ((k / 3) % w)) + k % 3])
}

/// Downscales an RGB frame 2x by nearest sampling.
pub fn downscale2_rgb(width: u32, height: u32, rgb: &[u8]) -> (r: (u32, u32, Vec<u8>))
    requires
        rgb@.len() == width * height * 3,
        width * height * 3 <= u32::MAX,
    ensures
        r.0 == width / 2,
        r.1 == height / 2,
        r.2@ == halved_rgb(rgb@, width, height),
{
    let w = width / 2;
    let h = height / 2;
    let mut out: Vec<u8> = Vec::new();
    let mut y: u32 = 0;
    proof {
        assert(width * height <= width * height * 3) by (nonlinear_arith)
            requires
                width * height >= 0,
        ;
    }
    while y < h
        invariant
            y <= h,
            w == width / 2,
            h == height / 2,
            rgb@.len() == width * height * 3,
            width * height * 3 <= u32::MAX,
            width * height <= u32::MAX,
            out@.len() == 3 * (y * w),
            forall|k: int| 0 <= k < out@.len() ==> #[trigger] out@[k] == rgb@[3 * (2 * ((k / 3) / w as int) * width + 2 * ((k / 3) % w as int)) + k % 3],
        decreases h - y,
    {
        let mut x: u32 = 0;
        while x < w
            invariant
                x <= w,
                y < h,
                w == width / 2,
                h == height / 2,
                rgb@.len() == width * height * 3,
                width * height * 3 <= u32::MAX,
                width * height <= u32::MAX,
                out@.len() == 3 * (y * w + x),
                forall|k: int| 0 <= k < out@.len() ==> #[trigger] out@[k] == rgb@[3 * (2 * ((k / 3) / w as int) * width + 2 * ((k / 3) % w as int)) + k % 3],
            decreases w - x,
        {
            let ghost p = (y * w + x) as int;
            proof {
                lemma_half_index(x as int, y as int, w as int, h as int, width as int, height as int);
                assert(p / (w as int) == y as int && p % (w as int) == x as int) by (nonlinear_arith)
                    requires
                        p == y * w + x,
                        0 <= x < w,
                        0 <= y,
                ;
            }
            let src = ((y * 2) * width + x * 2) * 3;
            let ghost before = out@;
            out.push(rgb[src as usize]);
            out.push(rgb[(src + 1) as usize]);
            out.push(rgb[(src + 2) as usize]);
            proof {
                assert forall|k: int| 0 <= k < out@.len() implies #[trigger] out@[k] == rgb@[3 * (2 * ((k / 3) / w as int) * width + 2 * ((k / 3) % w as int)) + k % 3] by {
                    if k >= before.len() {
                        let d = k - 3 * p;
                        assert(0 <= d < 3);
                        assert(k / 3 == p && k % 3 == d) by (nonlinear_arith)
                            requires
                                k == 3 * p + d,
                                0 <= d < 3,
                        ;
                    } else {
                        assert(out@[k] == before[k]);
                    }
                }
            }
            x = x + 1;
        }
        proof {
            assert(3 * ((y + 1) * w) == 3 * (y * w + w)) by (nonlinear_arith);
        }
        y = y + 1;
    }
    proof {
        assert(3 * (h * w) == w * h * 3) by (nonlinear_arith);
    }
    assert(out@ =~= halved_rgb(rgb@, width, height));
    (w, h, out)
}

} // verus!
