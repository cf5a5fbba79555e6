//! Decoded video frames.

use vstd::prelude::*;

verus! {

/// One decoded picture: RGBA8 pixels in row-major order without padding,
/// and the time in the source at which it is shown, in milliseconds.
pub struct Frame {
    pub width: u32,
    pub height: u32,
    pub pixels: Vec<u8>,
    pub timestamp: i64,
}

/// What a [`Frame`] holds, as plain values.
pub ghost struct FrameView {
    pub width: u32,
    pub height: u32,
    pub pixels: Seq<u8>,
    pub timestamp: i64,
}

impl View for Frame {
    type V = FrameView;

    open spec fn view(&self) -> FrameView {
        FrameView {
            width: self.width,
            height: self.height,
            pixels: self.pixels@,
            timestamp: self.timestamp,
        }
    }
}

/// The number of bytes that the pixels of a `width` by `height` frame take.
pub open spec fn pixel_bytes(width: u32, height: u32) -> nat {
    (width as nat) * (height as nat) * 4
}

impl Frame {
    /// The pixel buffer has four bytes for each pixel of the frame.
    pub open spec fn wf(&self) -> bool {
        self.pixels@.len() == pixel_bytes(self.width, self.height)
    }

    /// A black, fully transparent frame at time zero.
    pub fn new(width: u32, height: u32) -> (f: Frame)
        requires
            pixel_bytes(width, height) <= usize::MAX,
        ensures
            f.wf(),
            f@ == (FrameView {
                width,
                height,
                pixels: Seq::new(pixel_bytes(width, height), |i: int| 0u8),
                timestamp: 0,
            }),
    {
        let pixel_count: usize = (width as usize) * (height as usize);
        let pixels: Vec<u8> = vec![0u8; pixel_count * 4];
        assert(pixels@ =~= Seq::new(pixel_bytes(width, height), |i: int| 0u8));
        Frame { width, height, pixels, timestamp: 0 }
    }
}

/// The grey of the placeholder's background.
pub const BACKGROUND: u8 = 40;

/// The top row of the placeholder's bar: the bar lies one bar's height above
/// the bottom.
pub open spec fn bar_top(height: u32) -> int {
    height - (height / 20) * 2
}

/// The width of the placeholder's bar at `time`: the bar grows from nothing
/// to the full width in five seconds, again and again. Before time zero
/// there is no bar.
pub open spec fn bar_width(width: u32, time: i64) -> int {
    if time >= 0 {
        (width as int) * (time as int % 5000) / 5000
    } else {
        0
    }
}

/// The pixel at column `x` and row `y` lies in the placeholder's bar.
pub open spec fn in_bar(width: u32, height: u32, time: i64, x: int, y: int) -> bool {
    bar_top(height) <= y < bar_top(height) + height / 20 && 0 <= x < bar_width(width, time)
}

/// The byte of channel `channel` of a pixel of the placeholder: a light blue
/// in the bar and a dark grey elsewhere, both opaque.
pub open spec fn placeholder_channel(bar: bool, channel: int) -> u8 {
    if channel == 3 {
        255
    } else if !bar {
        40
    } else if channel == 0 {
        100
    } else if channel == 1 {
        180
    } else {
        240
    }
}

/// Byte number `k` of the placeholder of `width` by `height` pixels at
/// `time`: the bytes go pixel by pixel and row by row, four to a pixel.
pub open spec fn placeholder_byte(width: u32, height: u32, time: i64, k: int) -> u8 {
    placeholder_channel(
        in_bar(width, height, time, (k / 4) % (width as int), (k / 4) / (width as int)),
        k % 4,
    )
}

/// The bytes of the placeholder of `width` by `height` pixels at `time`.
pub open spec fn placeholder_pixels(width: u32, height: u32, time: i64) -> Seq<u8> {
    Seq::new(pixel_bytes(width, height), |k: int| placeholder_byte(width, height, time, k))
}

impl Frame {
    /// The picture that stands in for a frame that could not be decoded: a
    /// dark grey field with a bar near the bottom that shows the time going
    /// by.
    pub fn placeholder(time: i64, width: u32, height: u32) -> (f: Frame)
        requires
            pixel_bytes(width, height) <= usize::MAX,
        ensures
            f.wf(),
            f@ == (FrameView {
                width,
                height,
                pixels: placeholder_pixels(width, height, time),
                timestamp: time,
            }),
    {
        let bar_height: u32 = height / 20;
        let top: u32 = height - bar_height * 2;
        let bar: u32 = if time >= 0 {
            let phase: u64 = (time % 5000) as u64;
            assert(width * phase <= 0xffff_ffff * 4999 && width * phase / 5000 <= width)
                by (nonlinear_arith)
                requires
                    0 <= width <= 0xffff_ffff,
                    0 <= phase <= 4999,
            ;
            (((width as u64) * phase) / 5000) as u32
        } else {
            0
        };
        let mut pixels: Vec<u8> = Vec::new();
        let mut y: u32 = 0;
        while y < height
            invariant
                y <= height,
                pixel_bytes(width, height) <= usize::MAX,
                bar_height == height / 20,
                top == bar_top(height),
                bar == bar_width(width, time),
                pixels@.len() == (y as int) * (width as int) * 4,
                forall|k: int|
                    0 <= k < pixels@.len() ==> #[trigger] pixels@[k] == placeholder_byte(
                        width,
                        height,
                        time,
                        k,
                    ),
            decreases height - y,
        {
            let mut x: u32 = 0;
            while x < width
                invariant
                    x <= width,
                    y < height,
                    pixel_bytes(width, height) <= usize::MAX,
                    bar_height == height / 20,
                    top == bar_top(height),
                    bar == bar_width(width, time),
                    pixels@.len() == ((y as int) * (width as int) + x) * 4,
                    forall|k: int|
                        0 <= k < pixels@.len() ==> #[trigger] pixels@[k] == placeholder_byte(
                            width,
                            height,
                            time,
                            k,
                        ),
                decreases width - x,
            {
                let inside: bool = y >= top && y - top < bar_height && x < bar;
                proof {
                    lemma_pixel_place(width, height, x as int, y as int);
                }
                if inside {
                    pixels.push(100);
                    pixels.push(180);
                    pixels.push(240);
                } else {
                    pixels.push(BACKGROUND);
                    pixels.push(BACKGROUND);
                    pixels.push(BACKGROUND);
                }
                pixels.push(255);
                x += 1;
            }
            proof {
                assert(((y as int) * (width as int) + width) * 4 == ((y + 1) as int) * (
                width as int) * 4) by (nonlinear_arith);
            }
            y += 1;
        }
        proof {
            assert((height as int) * (width as int) * 4 == pixel_bytes(width, height))
                by (nonlinear_arith)
                requires
                    pixel_bytes(width, height) == (width as nat) * (height as nat) * 4,
            ;
            assert(pixels@ =~= placeholder_pixels(width, height, time));
        }
        Frame { width, height, pixels, timestamp: time }
    }
}

/// The pixel at column `x` of row `y` is pixel number `y * width + x`, which
/// lies within the picture, and from its number the column and the row are
/// got back by division.
proof fn lemma_pixel_place(width: u32, height: u32, x: int, y: int)
    requires
        0 <= x < width,
        0 <= y < height,
    ensures
        (y * width + x) % (width as int) == x,
        (y * width + x) / (width as int) == y,
        0 <= (y * width + x) * 4,
        (y * width + x) * 4 + 4 <= pixel_bytes(width, height),
{
    let w = width as int;
    vstd::arithmetic::div_mod::lemma_fundamental_div_mod_converse(y * w + x, w, y, x);
    assert(y * w + x + 1 <= (height as int) * w) by (nonlinear_arith)
        requires
            0 <= x < w,
            0 <= y < height,
    ;
    assert((height as int) * w * 4 == pixel_bytes(width, height)) by (nonlinear_arith)
        requires
            w == width as int,
            pixel_bytes(width, height) == (width as nat) * (height as nat) * 4,
    ;
}

impl Clone for Frame {
    /// A copy with the same size, pixels and time.
    fn clone(&self) -> (f: Frame)
        ensures
            f@ == self@,
    {
        Frame {
            width: self.width,
            height: self.height,
            pixels: self.pixels.clone(),
            timestamp: self.timestamp,
        }
    }
}

} // verus!
