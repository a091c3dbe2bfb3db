use vstd::prelude::*;

verus! {

/// How the bytes of a pixel encode its colour.
#[derive(Clone, Copy, Debug, PartialEq, Eq, Structural)]
pub enum PixelFormat {
    /// Red, green, blue bytes.
    Rgb,
    /// Blue, green, red bytes.
    Bgr,
    /// One grey byte.
    U8,
    /// A format given by the bit positions of its colours.
    Unknown { red_position: u8, green_position: u8, blue_position: u8 },
}

/// The geometry and format of a linear framebuffer.
#[derive(Clone, Copy, Debug, PartialEq, Eq, Structural)]
pub struct FrameBufferInfo {
    /// Total size in bytes.
    pub byte_len: usize,
    /// Visible pixels per line.
    pub width: usize,
    /// Visible lines.
    pub height: usize,
    pub pixel_format: PixelFormat,
    pub bytes_per_pixel: usize,
    /// Pixels from the start of one line to the start of the next.
    pub stride: usize,
}

/// Whether every byte offset the compositor computes for a visible pixel
/// (`y * stride * bytes_per_pixel + x * bytes_per_pixel`, plus the two
/// colour bytes after it) fits in a `usize`.
pub open spec fn addressable(info: FrameBufferInfo) -> bool {
    info.width > 0 && info.height > 0 ==> {
        &&& (info.height - 1) * info.stride <= usize::MAX
        &&& (info.height - 1) * info.stride * info.bytes_per_pixel + (info.width - 1)
            * info.bytes_per_pixel + 2 <= usize::MAX
    }
}

/// Byte offset of pixel `(x, y)` in the compositor's buffers.
pub open spec fn pixel_offset(info: FrameBufferInfo, x: int, y: int) -> int {
    y * info.stride * info.bytes_per_pixel + x * info.bytes_per_pixel
}

/// Whether `(x, y)` is a visible pixel.
pub open spec fn visible(info: FrameBufferInfo, x: int, y: int) -> bool {
    0 <= x < info.width && 0 <= y < info.height
}

/// The grey the compositor writes for `(r, g, b)` on a one-byte format.
pub open spec fn gray(r: u8, g: u8, b: u8) -> u8 {
    (r / 3 + g / 3 + b / 3) as u8
}

/// `buf` with the pixel at byte `off` set to `(r, g, b)`, when its three
/// colour bytes lie in `buf`: the colour bytes in the buffer's format
/// (nothing for an unknown format), and with four bytes per pixel the
/// fourth byte set to 255.
pub open spec fn paint(buf: Seq<u8>, off: int, info: FrameBufferInfo, r: u8, g: u8, b: u8) -> Seq<
    u8,
> {
    if off + 2 < buf.len() {
        let coloured = match info.pixel_format {
            PixelFormat::Rgb => buf.update(off, r).update(off + 1, g).update(off + 2, b),
            PixelFormat::Bgr => buf.update(off, b).update(off + 1, g).update(off + 2, r),
            PixelFormat::U8 => buf.update(off, gray(r, g, b)),
            PixelFormat::Unknown { .. } => buf,
        };
        if info.bytes_per_pixel == 4 {
            coloured.update(off + 3, 255u8)
        } else {
            coloured
        }
    } else {
        buf
    }
}

/// `buf` after the compositor draws pixel `(x, y)`: invisible pixels leave
/// it alone.
pub open spec fn plot(buf: Seq<u8>, info: FrameBufferInfo, x: int, y: int, r: u8, g: u8, b: u8) -> Seq<
    u8,
> {
    if visible(info, x, y) {
        paint(buf, pixel_offset(info, x, y), info, r, g, b)
    } else {
        buf
    }
}

/// `buf` after the compositor draws the points `pts` in order.
pub open spec fn plot_all(
    buf: Seq<u8>,
    info: FrameBufferInfo,
    pts: Seq<(int, int)>,
    r: u8,
    g: u8,
    b: u8,
) -> Seq<u8>
    decreases pts.len(),
{
    if pts.len() == 0 {
        buf
    } else {
        let last = pts.last();
        plot(plot_all(buf, info, pts.drop_last(), r, g, b), info, last.0, last.1, r, g, b)
    }
}

/// Whether drawing `(x, y)` stays inside a buffer of `len` bytes: with
/// four bytes per pixel, the fourth byte of a visible pixel whose colour
/// bytes fit must fit too.
pub open spec fn alpha_fits(info: FrameBufferInfo, len: int, x: int, y: int) -> bool {
    !(visible(info, x, y) && info.bytes_per_pixel == 4 && pixel_offset(info, x, y) + 3 == len)
}

/// Whether every point of `pts` has coordinates that fit in a `usize` and
/// may be drawn in a buffer of `len` bytes.
pub open spec fn points_fit(info: FrameBufferInfo, len: int, pts: Seq<(int, int)>) -> bool {
    forall|k: int|
        0 <= k < pts.len() ==> {
            &&& 0 <= (#[trigger] pts[k]).0 <= usize::MAX
            &&& 0 <= pts[k].1 <= usize::MAX
            &&& alpha_fits(info, len, pts[k].0, pts[k].1)
        }
}

/// Drawing only changes the buffer's bytes, never its length.
pub proof fn lemma_plot_all_len(
    buf: Seq<u8>,
    info: FrameBufferInfo,
    pts: Seq<(int, int)>,
    r: u8,
    g: u8,
    b: u8,
)
    requires
        points_fit(info, buf.len() as int, pts),
    ensures
        plot_all(buf, info, pts, r, g, b).len() == buf.len(),
    decreases pts.len(),
{
    if pts.len() > 0 {
        assert(points_fit(info, buf.len() as int, pts.drop_last())) by {
            assert forall|k: int| 0 <= k < pts.drop_last().len() implies #[trigger] pts.drop_last()[k]
                == pts[k] by {}
        }
        lemma_plot_all_len(buf, info, pts.drop_last(), r, g, b);
    }
}

/// Drawing a pixel changes no byte outside that pixel's four bytes, and
/// drawing off screen changes nothing.
pub proof fn law_plot_is_local(
    buf: Seq<u8>,
    info: FrameBufferInfo,
    x: int,
    y: int,
    r: u8,
    g: u8,
    b: u8,
    k: int,
)
    requires
        alpha_fits(info, buf.len() as int, x, y),
        0 <= k < buf.len(),
        !visible(info, x, y) || k < pixel_offset(info, x, y) || k >= pixel_offset(info, x, y) + 4,
    ensures
        plot(buf, info, x, y, r, g, b).len() == buf.len(),
        plot(buf, info, x, y, r, g, b)[k] == buf[k],
{
    if visible(info, x, y) {
        assert(0 <= pixel_offset(info, x, y)) by (nonlinear_arith)
            requires
                0 <= x,
                0 <= y,
        ;
    }
}

/// Whether painting at byte `off` of a buffer of `len` bytes keeps the
/// fourth byte of a four-byte pixel inside the buffer.
pub open spec fn alpha_in(info: FrameBufferInfo, len: int, off: int) -> bool {
    !(info.bytes_per_pixel == 4 && off + 3 == len)
}

/// Whether every byte that painting a pixel writes lies within that
/// pixel's `bytes_per_pixel` bytes: three colour bytes need three bytes per
/// pixel; a grey byte, or no colour byte at all, fits any pixel.
pub open spec fn writes_within_pixel(info: FrameBufferInfo) -> bool {
    &&& info.bytes_per_pixel >= 1
    &&& (info.bytes_per_pixel >= 3 || info.pixel_format is U8 || info.pixel_format is Unknown)
}

/// Painting keeps the buffer's length.
pub proof fn lemma_paint_len(buf: Seq<u8>, off: int, info: FrameBufferInfo, r: u8, g: u8, b: u8)
    requires
        0 <= off,
        alpha_in(info, buf.len() as int, off),
    ensures
        paint(buf, off, info, r, g, b).len() == buf.len(),
{
}

/// Painting the same pixel into two buffers of one length: each byte is
/// either left as it was in both, or set to the same value in both.
pub proof fn lemma_paint_same_writes(
    b1: Seq<u8>,
    b2: Seq<u8>,
    off: int,
    info: FrameBufferInfo,
    r: u8,
    g: u8,
    b: u8,
    j: int,
)
    requires
        0 <= off,
        b1.len() == b2.len(),
        alpha_in(info, b1.len() as int, off),
        0 <= j < b1.len(),
    ensures
        (paint(b1, off, info, r, g, b)[j] == b1[j] && paint(b2, off, info, r, g, b)[j] == b2[j])
            || paint(b1, off, info, r, g, b)[j] == paint(b2, off, info, r, g, b)[j],
{
}

/// Painting a pixel again in the same colour changes nothing.
pub proof fn lemma_paint_twice(buf: Seq<u8>, off: int, info: FrameBufferInfo, r: u8, g: u8, b: u8)
    requires
        0 <= off,
        alpha_in(info, buf.len() as int, off),
    ensures
        paint(paint(buf, off, info, r, g, b), off, info, r, g, b) == paint(buf, off, info, r, g, b),
{
    assert(paint(paint(buf, off, info, r, g, b), off, info, r, g, b) =~= paint(buf, off, info, r, g, b));
}

/// Painting two pixels whose bytes do not meet gives the same buffer in
/// either order.
pub proof fn lemma_paint_commute(
    buf: Seq<u8>,
    o1: int,
    o2: int,
    info: FrameBufferInfo,
    r: u8,
    g: u8,
    b: u8,
)
    requires
        writes_within_pixel(info),
        0 <= o1,
        o1 + info.bytes_per_pixel <= o2,
        alpha_in(info, buf.len() as int, o1),
        alpha_in(info, buf.len() as int, o2),
    ensures
        paint(paint(buf, o1, info, r, g, b), o2, info, r, g, b) == paint(
            paint(buf, o2, info, r, g, b),
            o1,
            info,
            r,
            g,
            b,
        ),
{
    assert(paint(paint(buf, o1, info, r, g, b), o2, info, r, g, b) =~= paint(
        paint(buf, o2, info, r, g, b),
        o1,
        info,
        r,
        g,
        b,
    ));
}

/// Drawing a pixel twice in the same colour leaves the buffer as drawing it
/// once.
pub proof fn law_draw_pixel_twice(
    buf: Seq<u8>,
    info: FrameBufferInfo,
    x: int,
    y: int,
    r: u8,
    g: u8,
    b: u8,
)
    requires
        alpha_fits(info, buf.len() as int, x, y),
    ensures
        plot(plot(buf, info, x, y, r, g, b), info, x, y, r, g, b) == plot(buf, info, x, y, r, g, b),
{
    if visible(info, x, y) {
        assert(0 <= pixel_offset(info, x, y)) by (nonlinear_arith)
            requires
                0 <= x,
                0 <= y,
        ;
        lemma_paint_twice(buf, pixel_offset(info, x, y), info, r, g, b);
    }
}

} // verus!
