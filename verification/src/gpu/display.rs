use vstd::prelude::*;
use crate::gpu::framebuffer::{FrameBufferInfo, PixelFormat};

verus! {

/// A pixel to draw: position (which may lie off screen) and colour.
#[derive(Clone, Copy, Debug, PartialEq, Eq, Structural)]
pub struct DisplayPixel {
    pub x: i32,
    pub y: i32,
    pub r: u8,
    pub g: u8,
    pub b: u8,
}

/// Whether `(x, y)` is on the boot display.
pub open spec fn on_display(info: FrameBufferInfo, x: i32, y: i32) -> bool {
    x >= 0 && y >= 0 && x < info.width && y < info.height
}

/// Byte offset of display pixel `(x, y)`.
pub open spec fn display_offset(info: FrameBufferInfo, x: int, y: int) -> int {
    (y * info.stride + x) * info.bytes_per_pixel
}

/// Whether the offset of an on-screen pixel, and the two bytes after it,
/// can be computed in a `usize`.
pub open spec fn display_pixel_fits(info: FrameBufferInfo, p: DisplayPixel) -> bool {
    on_display(info, p.x, p.y) ==> {
        &&& p.y * info.stride <= usize::MAX
        &&& p.y * info.stride + p.x <= usize::MAX
        &&& display_offset(info, p.x as int, p.y as int) + 2 <= usize::MAX
    }
}

/// `buf` after the boot display draws `p`: an on-screen pixel whose three
/// bytes fit gets its colour in the buffer's format (the average of the
/// channels for grey; nothing for an unknown format).
pub open spec fn display_plot(buf: Seq<u8>, info: FrameBufferInfo, p: DisplayPixel) -> Seq<u8> {
    let off = display_offset(info, p.x as int, p.y as int);
    if on_display(info, p.x, p.y) && off + 2 < buf.len() {
        match info.pixel_format {
            PixelFormat::Rgb => buf.update(off, p.r).update(off + 1, p.g).update(off + 2, p.b),
            PixelFormat::Bgr => buf.update(off, p.b).update(off + 1, p.g).update(off + 2, p.r),
            PixelFormat::U8 => buf.update(off, ((p.r + p.g + p.b) / 3) as u8),
            PixelFormat::Unknown { .. } => buf,
        }
    } else {
        buf
    }
}

/// `buf` after the boot display draws `pixels` in order.
pub open spec fn display_plot_all(buf: Seq<u8>, info: FrameBufferInfo, pixels: Seq<DisplayPixel>) -> Seq<
    u8,
>
    decreases pixels.len(),
{
    if pixels.len() == 0 {
        buf
    } else {
        display_plot(display_plot_all(buf, info, pixels.drop_last()), info, pixels.last())
    }
}

/// Draws `pixels` in order into the boot framebuffer `buffer`, described by
/// `info`.
pub fn draw_iter(buffer: &mut [u8], info: &FrameBufferInfo, pixels: &[DisplayPixel])
    requires
        forall|k: int| 0 <= k < pixels@.len() ==> display_pixel_fits(*info, #[trigger] pixels@[k]),
    ensures
        final(buffer)@ == display_plot_all(old(buffer)@, *info, pixels@),
{
    let stride = info.stride;
    let bytes_per_pixel = info.bytes_per_pixel;
    let width = info.width;
    let height = info.height;
    let mut k: usize = 0;
    while k < pixels.len()
        invariant
            k <= pixels@.len(),
            stride == info.stride,
            bytes_per_pixel == info.bytes_per_pixel,
            width == info.width,
            height == info.height,
            buffer@.len() == old(buffer)@.len(),
            forall|j: int| 0 <= j < pixels@.len() ==> display_pixel_fits(*info, #[trigger] pixels@[j]),
            buffer@ == display_plot_all(old(buffer)@, *info, pixels@.take(k as int)),
        decreases pixels.len() - k,
    {
        let p = pixels[k];
        proof {
            assert(pixels@.take(k + 1).drop_last() =~= pixels@.take(k as int));
            assert(display_pixel_fits(*info, pixels@[k as int]));
        }
        let x = p.x;
        let y = p.y;
        if x >= 0 && y >= 0 && (x as usize) < width && (y as usize) < height {
            let pixel_offset = ((y as usize) * stride + (x as usize)) * bytes_per_pixel;
            let len = buffer.len();
            if pixel_offset < len && len - pixel_offset > 2 {
                match info.pixel_format {
                    PixelFormat::Rgb => {
                        buffer[pixel_offset] = p.r;
                        buffer[pixel_offset + 1] = p.g;
                        buffer[pixel_offset + 2] = p.b;
                    },
                    PixelFormat::Bgr => {
                        buffer[pixel_offset] = p.b;
                        buffer[pixel_offset + 1] = p.g;
                        buffer[pixel_offset + 2] = p.r;
                    },
                    PixelFormat::U8 => {
                        let gray = ((p.r as u16 + p.g as u16 + p.b as u16) / 3) as u8;
                        buffer[pixel_offset] = gray;
                    },
                    _ => {},
                }
            }
        }
        k = k + 1;
    }
    proof {
        assert(pixels@.take(pixels@.len() as int) =~= pixels@);
    }
}

/// The display's size in pixels, as `u32`s.
pub fn display_size(info: &FrameBufferInfo) -> (r: (u32, u32))
    ensures
        r == (info.width as u32, info.height as u32),
{
    (info.width as u32, info.height as u32)
}

/// Where the top-left corner of an image of `image_width` x `image_height`
/// goes to centre it on a display of `display_width` x `display_height`
/// (at 0 on an axis where the image is larger).
pub open spec fn centred_origin(display_width: u32, display_height: u32, image_width: u32, image_height: u32) -> (i32, i32) {
    (
        (if display_width > image_width { (display_width - image_width) / 2 } else { 0 }) as i32,
        (if display_height > image_height { (display_height - image_height) / 2 } else { 0 }) as i32,
    )
}

/// The logo is centred: when it fits, the margins left and right (above
/// and below) differ by at most one pixel, the extra one on the right
/// (below); an image wider (taller) than the display starts at its edge.
pub proof fn law_logo_is_centred(dw: u32, dh: u32, iw: u32, ih: u32)
    ensures
        ({
            let (ox, oy) = centred_origin(dw, dh, iw, ih);
            &&& iw <= dw ==> 0 <= (dw - iw - ox) - ox <= 1
            &&& iw > dw ==> ox == 0
            &&& ih <= dh ==> 0 <= (dh - ih - oy) - oy <= 1
            &&& ih > dh ==> oy == 0
        }),
{
}

/// Centres an image on the display.
pub fn logo_origin(display_width: u32, display_height: u32, image_width: u32, image_height: u32) -> (r: (i32, i32))
    ensures
        r == centred_origin(display_width, display_height, image_width, image_height),
        r.0 >= 0,
        r.1 >= 0,
{
    let center_x = display_width.saturating_sub(image_width) / 2;
    let center_y = display_height.saturating_sub(image_height) / 2;
    (center_x as i32, center_y as i32)
}

/// The width and height that the BMP decoder reads from the image `data`,
/// or `None` when it does not accept the data.
pub uninterp spec fn bmp_dimensions(data: Seq<u8>) -> Option<(u32, u32)>;

/// Parses `data` with `tinybmp::Bmp::<Rgb888>::from_slice` and returns the
/// size of the image's bounding box. Only the name `bmp_dimensions` is
/// claimed of the result: it depends on the bytes alone.
#[verifier::external_body]
fn bmp_size(data: &[u8]) -> (r: Option<(u32, u32)>)
    ensures
        r == bmp_dimensions(data@),
{
    match tinybmp::Bmp::<embedded_graphics::pixelcolor::Rgb888>::from_slice(data) {
        Ok(bmp) => {
            let size = embedded_graphics::geometry::Dimensions::bounding_box(&bmp).size;
            Some((size.width, size.height))
        },
        Err(_) => None,
    }
}

/// Where the boot logo in `bmp` goes on the display: centred, or `None`
/// when the image cannot be decoded (then no logo is drawn).
pub fn logo_placement(bmp: &[u8], display_width: u32, display_height: u32) -> (r: Option<(i32, i32)>)
    ensures
        r == match bmp_dimensions(bmp@) {
            Some((w, h)) => Some(centred_origin(display_width, display_height, w, h)),
            None => None,
        },
{
    match bmp_size(bmp) {
        Some((w, h)) => Some(logo_origin(display_width, display_height, w, h)),
        None => None,
    }
}

} // verus!
