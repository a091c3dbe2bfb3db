use vstd::prelude::*;
use crate::gpu::framebuffer::{
    addressable, alpha_fits, alpha_in, lemma_paint_commute, lemma_paint_len, lemma_paint_same_writes,
    lemma_paint_twice, paint, pixel_offset, plot, plot_all, visible, writes_within_pixel,
    FrameBufferInfo, PixelFormat,
};

verus! {

/// A bitmap font of 128 glyphs (ASCII): each glyph is `height` rows of
/// `width` bits, the leftmost pixel in the row's highest used bit.
pub struct Font {
    glyphs: Vec<Vec<u8>>,
    width: usize,
    height: usize,
}

impl Font {
    pub closed spec fn spec_width(&self) -> usize {
        self.width
    }

    pub closed spec fn spec_height(&self) -> usize {
        self.height
    }

    /// Row `row` of glyph `g`.
    pub closed spec fn row(&self, g: int, row: int) -> u8 {
        self.glyphs@[g]@[row]
    }

    /// 128 glyphs of `height` rows, and rows of 1 to 8 pixels.
    pub closed spec fn wf(&self) -> bool {
        &&& self.glyphs.len() == 128
        &&& forall|g: int| 0 <= g < 128 ==> (#[trigger] self.glyphs@[g]).len() == self.height
        &&& 1 <= self.width <= 8
    }

    /// A font made of `glyphs` (indexed by code point), `width` pixels wide.
    pub fn new(glyphs: Vec<Vec<u8>>, width: usize, height: usize) -> (f: Self)
        requires
            glyphs.len() == 128,
            forall|g: int| 0 <= g < 128 ==> (#[trigger] glyphs@[g]).len() == height,
            1 <= width <= 8,
        ensures
            f.wf(),
            f.spec_width() == width,
            f.spec_height() == height,
            forall|g: int, row: int|
                0 <= g < 128 && 0 <= row < height ==> #[trigger] f.row(g, row) == glyphs@[g]@[row],
    {
        Font { glyphs, width, height }
    }
}

/// A double-buffered view of the screen: drawing goes to the back buffer,
/// `swap_buffers` copies it to the front buffer that the display shows.
pub struct Compositor {
    front_buffer: Vec<u8>,
    back_buffer: Vec<u8>,
    info: FrameBufferInfo,
    font: Font,
}

/// The offsets where `clear` paints: `k * bytes_per_pixel` for each `k`
/// with that offset inside a buffer of `len` bytes.
pub open spec fn pixel_starts(len: int, bpp: int) -> int {
    (len + bpp - 1) / bpp
}

/// `buf` with the pixels at the first `n` offsets `0, bpp, 2 * bpp, ...`
/// painted `(r, g, b)`.
pub open spec fn paint_first(buf: Seq<u8>, info: FrameBufferInfo, n: nat, r: u8, g: u8, b: u8) -> Seq<
    u8,
>
    decreases n,
{
    if n == 0 {
        buf
    } else {
        paint(
            paint_first(buf, info, (n - 1) as nat, r, g, b),
            (n - 1) * info.bytes_per_pixel,
            info,
            r,
            g,
            b,
        )
    }
}

/// Whether every visible pixel that `draw_rect` draws has coordinates that
/// fit in a `usize` and its fourth byte inside the buffer.
pub open spec fn rect_fits(
    info: FrameBufferInfo,
    len: int,
    x: int,
    y: int,
    width: int,
    height: int,
) -> bool {
    forall|dx: int, dy: int|
        0 <= dx < width && 0 <= dy < height ==> {
            &&& #[trigger] (x + dx) <= usize::MAX
            &&& #[trigger] (y + dy) <= usize::MAX
            &&& alpha_fits(info, len, x + dx, y + dy)
        }
}

/// The first `n` points of row `y` starting at column `x`.
pub open spec fn row_points(x: int, y: int, n: nat) -> Seq<(int, int)> {
    Seq::new(n, |dx: int| (x + dx, y))
}

/// The points of a `width` x `height` rectangle at `(x, y)`, row by row.
pub open spec fn rect_points(x: int, y: int, width: nat, height: nat) -> Seq<(int, int)>
    decreases height,
{
    if height == 0 {
        Seq::empty()
    } else {
        rect_points(x, y, width, (height - 1) as nat) + row_points(x, y + height - 1, width)
    }
}

/// The glyph a character is drawn with: its own for ASCII, glyph 0 for
/// anything else.
pub open spec fn glyph_index(c: char) -> int {
    if (c as int) < 128 {
        c as int
    } else {
        0
    }
}

/// Whether pixel `col` of a glyph row `bits`, `width` pixels wide, is set.
pub open spec fn bit_on(bits: u8, col: int, width: int) -> bool {
    bits & (1u8 << ((width - 1 - col) as u8)) != 0
}

/// The set pixels among the first `n` of row `row` of the glyph of `c`
/// placed at `(x, y)`, left to right.
pub open spec fn glyph_row_points(font: Font, c: char, x: int, y: int, row: int, n: nat) -> Seq<
    (int, int),
>
    decreases n,
{
    if n == 0 {
        Seq::empty()
    } else {
        let before = glyph_row_points(font, c, x, y, row, (n - 1) as nat);
        if bit_on(font.row(glyph_index(c), row), n - 1, font.spec_width() as int) {
            before.push((x + n - 1, y + row))
        } else {
            before
        }
    }
}

/// The set pixels of the first `rows` rows of the glyph of `c` placed at
/// `(x, y)`, row by row.
pub open spec fn glyph_points(font: Font, c: char, x: int, y: int, rows: nat) -> Seq<(int, int)>
    decreases rows,
{
    if rows == 0 {
        Seq::empty()
    } else {
        glyph_points(font, c, x, y, (rows - 1) as nat) + glyph_row_points(
            font,
            c,
            x,
            y,
            rows - 1,
            font.spec_width() as nat,
        )
    }
}

/// Whether every set pixel of the glyph of `c` at `(x, y)` has coordinates
/// that fit in a `usize` and its fourth byte inside a buffer of `len`.
pub open spec fn char_fits(info: FrameBufferInfo, len: int, font: Font, c: char, x: int, y: int) -> bool {
    forall|row: int, col: int|
        0 <= row < font.spec_height() && 0 <= col < font.spec_width() && #[trigger] bit_on(
            font.row(glyph_index(c), row),
            col,
            font.spec_width() as int,
        ) ==> {
            &&& x + col <= usize::MAX
            &&& y + row <= usize::MAX
            &&& alpha_fits(info, len, x + col, y + row)
        }
}

/// Where the next character of a string goes after `s` has been laid out
/// from `(x, y)` on a screen `width` pixels wide: a newline, or a character
/// that leaves no room for another, starts the next line at column `x`.
pub open spec fn text_cursor(font: Font, width: int, x: int, y: int, s: Seq<char>) -> (int, int)
    decreases s.len(),
{
    if s.len() == 0 {
        (x, y)
    } else {
        let (cx, cy) = text_cursor(font, width, x, y, s.drop_last());
        let fw = font.spec_width() as int;
        let fh = font.spec_height() as int;
        if s.last() == '\n' {
            (x, cy + fh)
        } else if cx + fw + fw >= width {
            (x, cy + fh)
        } else {
            (cx + fw, cy)
        }
    }
}

/// The pixels drawn for the string `s` laid out from `(x, y)`, in order.
pub open spec fn text_points(font: Font, width: int, x: int, y: int, s: Seq<char>) -> Seq<(int, int)>
    decreases s.len(),
{
    if s.len() == 0 {
        Seq::empty()
    } else {
        let (cx, cy) = text_cursor(font, width, x, y, s.drop_last());
        let before = text_points(font, width, x, y, s.drop_last());
        if s.last() == '\n' {
            before
        } else {
            before + glyph_points(font, s.last(), cx, cy, font.spec_height() as nat)
        }
    }
}

/// Whether laying out and drawing `s` from `(x, y)` keeps every cursor
/// position and drawn pixel within `usize` and every fourth byte inside a
/// buffer of `len`.
pub open spec fn text_fits(info: FrameBufferInfo, len: int, font: Font, x: int, y: int, s: Seq<char>) -> bool
    decreases s.len(),
{
    if s.len() == 0 {
        true
    } else {
        let (cx, cy) = text_cursor(font, info.width as int, x, y, s.drop_last());
        let fw = font.spec_width() as int;
        let fh = font.spec_height() as int;
        &&& text_fits(info, len, font, x, y, s.drop_last())
        &&& if s.last() == '\n' {
            cy + fh <= usize::MAX
        } else {
            &&& char_fits(info, len, font, s.last(), cx, cy)
            &&& cx + fw + fw <= usize::MAX
            &&& cx + fw + fw >= info.width ==> cy + fh <= usize::MAX
        }
    }
}

/// Drawing `a` then `b` is drawing `a + b`.
pub proof fn lemma_plot_all_append(
    buf: Seq<u8>,
    info: FrameBufferInfo,
    a: Seq<(int, int)>,
    bs: Seq<(int, int)>,
    r: u8,
    g: u8,
    b: u8,
)
    ensures
        plot_all(buf, info, a + bs, r, g, b) == plot_all(plot_all(buf, info, a, r, g, b), info, bs, r, g, b),
    decreases bs.len(),
{
    if bs.len() == 0 {
        assert(a + bs =~= a);
    } else {
        assert((a + bs).drop_last() =~= a + bs.drop_last());
        lemma_plot_all_append(buf, info, a, bs.drop_last(), r, g, b);
    }
}

proof fn lemma_text_fits_prefix(info: FrameBufferInfo, len: int, font: Font, x: int, y: int, s: Seq<char>, n: int)
    requires
        text_fits(info, len, font, x, y, s),
        0 <= n <= s.len(),
    ensures
        text_fits(info, len, font, x, y, s.take(n)),
    decreases s.len() - n,
{
    if n < s.len() {
        lemma_text_fits_prefix(info, len, font, x, y, s, n + 1);
        assert(s.take(n + 1).drop_last() =~= s.take(n));
    } else {
        assert(s.take(n) =~= s);
    }
}

proof fn lemma_offset_fits(info: FrameBufferInfo, x: usize, y: usize)
    requires
        addressable(info),
        x < info.width,
        y < info.height,
    ensures
        y * info.stride <= usize::MAX,
        y * info.stride * info.bytes_per_pixel <= usize::MAX,
        x * info.bytes_per_pixel <= usize::MAX,
        y * info.stride * info.bytes_per_pixel + x * info.bytes_per_pixel + 2 <= usize::MAX,
{
    let s = info.stride as int;
    let p = info.bytes_per_pixel as int;
    let h1 = info.height - 1;
    let w1 = info.width - 1;
    assert(y * s <= h1 * s) by (nonlinear_arith)
        requires
            0 <= y <= h1,
            0 <= s,
    ;
    assert(y * s * p <= h1 * s * p) by (nonlinear_arith)
        requires
            0 <= y * s <= h1 * s,
            0 <= p,
    ;
    assert(x * p <= w1 * p) by (nonlinear_arith)
        requires
            0 <= x <= w1,
            0 <= p,
    ;
    assert(0 <= y * s * p) by (nonlinear_arith)
        requires
            0 <= y,
            0 <= s,
            0 <= p,
    ;
    assert(0 <= x * p) by (nonlinear_arith)
        requires
            0 <= x,
            0 <= p,
    ;
}

impl Compositor {
    pub closed spec fn front(&self) -> Seq<u8> {
        self.front_buffer@
    }

    pub closed spec fn back(&self) -> Seq<u8> {
        self.back_buffer@
    }

    pub closed spec fn spec_info(&self) -> FrameBufferInfo {
        self.info
    }

    pub closed spec fn spec_font(&self) -> Font {
        self.font
    }

    /// A compositor that shows `front_buffer` (the framebuffer), draws into
    /// `back_buffer`, and writes text in `font`.
    pub fn new(front_buffer: Vec<u8>, back_buffer: Vec<u8>, info: FrameBufferInfo, font: Font) -> (c:
        Self)
        ensures
            c.front() == front_buffer@,
            c.back() == back_buffer@,
            c.spec_info() == info,
            c.spec_font() == font,
    {
        Compositor { front_buffer, back_buffer, info, font }
    }

    /// The visible width in pixels.
    pub fn width(&self) -> (w: usize)
        ensures
            w == self.spec_info().width,
    {
        self.info.width
    }

    /// The visible height in pixels.
    pub fn height(&self) -> (h: usize)
        ensures
            h == self.spec_info().height,
    {
        self.info.height
    }

    /// The front buffer, as the display shows it.
    pub fn front_buffer(&self) -> (r: &Vec<u8>)
        ensures
            r@ == self.front(),
    {
        &self.front_buffer
    }

    /// The back buffer, as drawn so far.
    pub fn back_buffer(&self) -> (r: &Vec<u8>)
        ensures
            r@ == self.back(),
    {
        &self.back_buffer
    }

    fn paint_at(&mut self, off: usize, r: u8, g: u8, b: u8)
        requires
            old(self).spec_info().bytes_per_pixel == 4 && off + 2 < old(self).back().len() ==> off
                + 3 < old(self).back().len(),
        ensures
            final(self).back() == paint(old(self).back(), off as int, old(self).spec_info(), r, g, b),
            final(self).back().len() == old(self).back().len(),
            final(self).front() == old(self).front(),
            final(self).spec_info() == old(self).spec_info(),
            final(self).spec_font() == old(self).spec_font(),
    {
        let len = self.back_buffer.len();
        if off < len && len - off > 2 {
            match self.info.pixel_format {
                PixelFormat::Rgb => {
                    self.back_buffer.set(off, r);
                    self.back_buffer.set(off + 1, g);
                    self.back_buffer.set(off + 2, b);
                },
                PixelFormat::Bgr => {
                    self.back_buffer.set(off, b);
                    self.back_buffer.set(off + 1, g);
                    self.back_buffer.set(off + 2, r);
                },
                PixelFormat::U8 => {
                    self.back_buffer.set(off, r / 3 + g / 3 + b / 3);
                },
                _ => {},
            }
            if self.info.bytes_per_pixel == 4 {
                self.back_buffer.set(off + 3, 255);
            }
        }
    }

    /// Fills the back buffer with `(r, g, b)`: paints the pixel at every
    /// multiple of `bytes_per_pixel` whose colour bytes fit.
    pub fn clear(&mut self, r: u8, g: u8, b: u8)
        requires
            old(self).spec_info().bytes_per_pixel > 0,
            old(self).spec_info().bytes_per_pixel == 4 ==> old(self).back().len() % 4 != 3,
        ensures
            final(self).back() == paint_first(
                old(self).back(),
                old(self).spec_info(),
                pixel_starts(
                    old(self).back().len() as int,
                    old(self).spec_info().bytes_per_pixel as int,
                ) as nat,
                r,
                g,
                b,
            ),
            final(self).front() == old(self).front(),
            final(self).spec_info() == old(self).spec_info(),
            final(self).spec_font() == old(self).spec_font(),
    {
        let bpp = self.info.bytes_per_pixel;
        let len = self.back_buffer.len();
        let ghost info = self.info;
        let ghost start = self.back();
        if len == 0 {
            proof {
                assert(pixel_starts(0, bpp as int) == 0) by (nonlinear_arith)
                    requires
                        bpp > 0,
                ;
            }
            return;
        }
        let mut i: usize = 0;
        let mut k: usize = 0;
        loop
            invariant_except_break
                i < len,
                i == k * bpp,
            invariant
                0 < bpp,
                bpp == info.bytes_per_pixel,
                len == self.back().len(),
                len == start.len(),
                self.spec_info() == info,
                self.front() == old(self).front(),
                self.spec_font() == old(self).spec_font(),
                info == old(self).spec_info(),
                start == old(self).back(),
                bpp == 4 ==> len % 4 != 3,
                self.back() == paint_first(start, info, k as nat, r, g, b),
            ensures
                self.back() == paint_first(start, info, k as nat, r, g, b),
                k * bpp >= len,
                k >= 1,
                (k - 1) * bpp < len,
            decreases len - i,
        {
            proof {
                if bpp == 4 && i + 2 < len {
                    assert((k * 4) % 4 == 0) by (nonlinear_arith);
                }
            }
            self.paint_at(i, r, g, b);
            proof {
                assert(k <= k * bpp) by (nonlinear_arith)
                    requires
                        bpp >= 1,
                ;
            }
            k = k + 1;
            proof {
                assert(k * bpp == i + bpp) by (nonlinear_arith)
                    requires
                        i == (k - 1) * bpp,
                ;
            }
            if len - i <= bpp {
                break;
            }
            i = i + bpp;
        }
        proof {
            let n = k as int;
            let p = bpp as int;
            let l = len as int;
            assert(pixel_starts(l, p) == n) by (nonlinear_arith)
                requires
                    n * p >= l,
                    (n - 1) * p < l,
                    p > 0,
                    n >= 1,
            ;
        }
    }

    /// Draws pixel `(x, y)` of the back buffer in `(r, g, b)`; pixels off
    /// the screen, or whose colour bytes do not fit, are left alone.
    pub fn draw_pixel(&mut self, x: usize, y: usize, r: u8, g: u8, b: u8)
        requires
            addressable(old(self).spec_info()),
            alpha_fits(old(self).spec_info(), old(self).back().len() as int, x as int, y as int),
        ensures
            final(self).back() == plot(old(self).back(), old(self).spec_info(), x as int, y as int, r, g, b),
            final(self).back().len() == old(self).back().len(),
            final(self).front() == old(self).front(),
            final(self).spec_info() == old(self).spec_info(),
            final(self).spec_font() == old(self).spec_font(),
    {
        if x >= self.info.width || y >= self.info.height {
            return;
        }
        proof {
            lemma_offset_fits(self.info, x, y);
        }
        let byte_offset = y * self.info.stride * self.info.bytes_per_pixel + x
            * self.info.bytes_per_pixel;
        self.paint_at(byte_offset, r, g, b);
    }

    /// Draws a `width` x `height` rectangle at `(x, y)` in `(r, g, b)`,
    /// row by row.
    pub fn draw_rect(&mut self, x: usize, y: usize, width: usize, height: usize, r: u8, g: u8, b: u8)
        requires
            addressable(old(self).spec_info()),
            rect_fits(
                old(self).spec_info(),
                old(self).back().len() as int,
                x as int,
                y as int,
                width as int,
                height as int,
            ),
        ensures
            final(self).back() == plot_all(
                old(self).back(),
                old(self).spec_info(),
                rect_points(x as int, y as int, width as nat, height as nat),
                r,
                g,
                b,
            ),
            final(self).front() == old(self).front(),
            final(self).spec_info() == old(self).spec_info(),
            final(self).spec_font() == old(self).spec_font(),
    {
        let ghost info = self.info;
        let ghost start = self.back();
        let mut dy: usize = 0;
        while dy < height
            invariant
                dy <= height,
                info == old(self).spec_info(),
                start == old(self).back(),
                self.spec_info() == info,
                self.front() == old(self).front(),
                self.spec_font() == old(self).spec_font(),
                self.back().len() == start.len(),
                addressable(info),
                rect_fits(info, start.len() as int, x as int, y as int, width as int, height as int),
                self.back() == plot_all(start, info, rect_points(x as int, y as int, width as nat, dy as nat), r, g, b),
            decreases height - dy,
        {
            let ghost done_rows = rect_points(x as int, y as int, width as nat, dy as nat);
            let mut dx: usize = 0;
            while dx < width
                invariant
                    dx <= width,
                    dy < height,
                    info == old(self).spec_info(),
                    start == old(self).back(),
                    self.spec_info() == info,
                    self.front() == old(self).front(),
                    self.spec_font() == old(self).spec_font(),
                    self.back().len() == start.len(),
                    addressable(info),
                    rect_fits(info, start.len() as int, x as int, y as int, width as int, height as int),
                    done_rows == rect_points(x as int, y as int, width as nat, dy as nat),
                    self.back() == plot_all(start, info, done_rows + row_points(x as int, y + dy, dx as nat), r, g, b),
                decreases width - dx,
            {
                proof {
                    assert((x + dx) <= usize::MAX && (y + dy) <= usize::MAX);
                    let pts = done_rows + row_points(x as int, y + dy, (dx + 1) as nat);
                    assert(pts.drop_last() =~= done_rows + row_points(x as int, y + dy, dx as nat));
                    assert(pts.last() == (x + dx, y + dy));
                }
                self.draw_pixel(x + dx, y + dy, r, g, b);
                dx = dx + 1;
            }
            proof {
                assert(rect_points(x as int, y as int, width as nat, (dy + 1) as nat) =~= done_rows
                    + row_points(x as int, y + dy, width as nat));
            }
            dy = dy + 1;
        }
    }

    /// Draws the glyph of `c` (glyph 0 beyond ASCII) with its top-left
    /// corner at `(x, y)`: each set bit of each row becomes a pixel in
    /// `(r, g, b)`.
    pub fn draw_char(&mut self, x: usize, y: usize, c: char, r: u8, g: u8, b: u8)
        requires
            old(self).spec_font().wf(),
            addressable(old(self).spec_info()),
            char_fits(old(self).spec_info(), old(self).back().len() as int, old(self).spec_font(), c, x as int, y as int),
        ensures
            final(self).back() == plot_all(
                old(self).back(),
                old(self).spec_info(),
                glyph_points(old(self).spec_font(), c, x as int, y as int, old(self).spec_font().spec_height() as nat),
                r,
                g,
                b,
            ),
            final(self).back().len() == old(self).back().len(),
            final(self).front() == old(self).front(),
            final(self).spec_info() == old(self).spec_info(),
            final(self).spec_font() == old(self).spec_font(),
    {
        let ghost info = self.info;
        let ghost font = self.font;
        let ghost start = self.back();
        let codepoint = c as u32;
        let gi: usize = if codepoint < 128 { codepoint as usize } else { 0 };
        let fw = self.font.width;
        let fh = self.font.height;
        let mut row_idx: usize = 0;
        while row_idx < fh
            invariant
                row_idx <= fh,
                fh == font.spec_height(),
                fw == font.spec_width(),
                gi == glyph_index(c),
                font.wf(),
                info == old(self).spec_info(),
                font == old(self).spec_font(),
                start == old(self).back(),
                self.spec_info() == info,
                self.spec_font() == font,
                self.front() == old(self).front(),
                self.back().len() == start.len(),
                addressable(info),
                char_fits(info, start.len() as int, font, c, x as int, y as int),
                self.back() == plot_all(start, info, glyph_points(font, c, x as int, y as int, row_idx as nat), r, g, b),
            decreases fh - row_idx,
        {
            let row = self.font.glyphs[gi][row_idx];
            let ghost done = glyph_points(font, c, x as int, y as int, row_idx as nat);
            let mut col: usize = 0;
            while col < fw
                invariant
                    col <= fw,
                    row_idx < fh,
                    fh == font.spec_height(),
                    fw == font.spec_width(),
                    gi == glyph_index(c),
                    row == font.row(gi as int, row_idx as int),
                    font.wf(),
                    info == old(self).spec_info(),
                    font == old(self).spec_font(),
                    start == old(self).back(),
                    self.spec_info() == info,
                    self.spec_font() == font,
                    self.front() == old(self).front(),
                    self.back().len() == start.len(),
                    addressable(info),
                    char_fits(info, start.len() as int, font, c, x as int, y as int),
                    done == glyph_points(font, c, x as int, y as int, row_idx as nat),
                    self.back() == plot_all(start, info, done + glyph_row_points(font, c, x as int, y as int, row_idx as int, col as nat), r, g, b),
                decreases fw - col,
            {
                let ghost prev = glyph_row_points(font, c, x as int, y as int, row_idx as int, col as nat);
                let shift = (fw - 1 - col) as u32;
                assert(shift < 8);
                if row & (1u8 << shift) != 0 {
                    proof {
                        assert(bit_on(font.row(glyph_index(c), row_idx as int), col as int, font.spec_width() as int));
                        assert((x + col) <= usize::MAX && (y + row_idx) <= usize::MAX);
                        let pts = done + prev.push((x + col, y + row_idx));
                        assert(pts.drop_last() =~= done + prev);
                    }
                    self.draw_pixel(x + col, y + row_idx, r, g, b);
                    proof {
                        assert(done + glyph_row_points(font, c, x as int, y as int, row_idx as int, (col + 1) as nat)
                            =~= done + prev.push((x + col, y + row_idx)));
                    }
                } else {
                    proof {
                        assert(!bit_on(font.row(glyph_index(c), row_idx as int), col as int, font.spec_width() as int));
                        assert(glyph_row_points(font, c, x as int, y as int, row_idx as int, (col + 1) as nat) == prev);
                    }
                }
                col = col + 1;
            }
            row_idx = row_idx + 1;
        }
    }

    /// Writes `s` from `(x, y)`: each character is drawn with `draw_char`
    /// and the cursor moves one glyph width right; a newline, or a
    /// character after which another would reach the right edge, moves the
    /// cursor to column `x` of the next line.
    pub fn draw_string(&mut self, x: usize, y: usize, s: &str, r: u8, g: u8, b: u8)
        requires
            old(self).spec_font().wf(),
            addressable(old(self).spec_info()),
            text_fits(old(self).spec_info(), old(self).back().len() as int, old(self).spec_font(), x as int, y as int, s@),
        ensures
            final(self).back() == plot_all(
                old(self).back(),
                old(self).spec_info(),
                text_points(old(self).spec_font(), old(self).spec_info().width as int, x as int, y as int, s@),
                r,
                g,
                b,
            ),
            final(self).front() == old(self).front(),
            final(self).spec_info() == old(self).spec_info(),
            final(self).spec_font() == old(self).spec_font(),
    {
        broadcast use vstd::string::axiom_spec_iter;
        let ghost info = self.info;
        let ghost font = self.font;
        let ghost start = self.back();
        let ghost width = info.width as int;
        let fw = self.font.width;
        let fh = self.font.height;
        let mut cur_x = x;
        let mut cur_y = y;
        for c in it: s.chars()
            invariant
                fh == font.spec_height(),
                fw == font.spec_width(),
                font.wf(),
                info == old(self).spec_info(),
                font == old(self).spec_font(),
                start == old(self).back(),
                self.spec_info() == info,
                self.spec_font() == font,
                self.front() == old(self).front(),
                self.back().len() == start.len(),
                addressable(info),
                it.seq() == s@,
                width == info.width as int,
                text_fits(info, start.len() as int, font, x as int, y as int, s@),
                (cur_x as int, cur_y as int) == text_cursor(font, width, x as int, y as int, s@.take(it.index() as int)),
                self.back() == plot_all(start, info, text_points(font, width, x as int, y as int, s@.take(it.index() as int)), r, g, b),
        {
            let ghost pre = s@.take(it.index() + 1);
            proof {
                lemma_text_fits_prefix(info, start.len() as int, font, x as int, y as int, s@, it.index() + 1);
                assert(pre.drop_last() =~= s@.take(it.index() as int));
                assert(pre.last() == c);
                assert(text_fits(info, start.len() as int, font, x as int, y as int, pre));
                assert(text_cursor(font, width, x as int, y as int, pre.drop_last()) == (cur_x as int, cur_y as int));
            }
            if c == '\n' {

                cur_y = cur_y + fh;
                cur_x = x;
                assert(text_cursor(font, width, x as int, y as int, pre) == (cur_x as int, cur_y as int));
            } else {
                let ghost before = self.back();
                self.draw_char(cur_x, cur_y, c, r, g, b);
                proof {
                    lemma_plot_all_append(start, info, text_points(font, width, x as int, y as int, s@.take(it.index() as int)),
                        glyph_points(font, c, cur_x as int, cur_y as int, fh as nat), r, g, b);
                }
                cur_x = cur_x + fw;
                if cur_x + fw >= self.info.width {
                    cur_x = x;
                    cur_y = cur_y + fh;
                }
            }
        }
        proof {
            assert(s@.take(s@.len() as int) =~= s@);
        }
    }

    /// Copies the back buffer into the front buffer, as far as the shorter
    /// of the two reaches.
    pub fn swap_buffers(&mut self)
        ensures
            final(self).front() == old(self).back().subrange(
                0,
                min_len(old(self).front().len(), old(self).back().len()) as int,
            ) + old(self).front().subrange(
                min_len(old(self).front().len(), old(self).back().len()) as int,
                old(self).front().len() as int,
            ),
            final(self).back() == old(self).back(),
            final(self).spec_info() == old(self).spec_info(),
            final(self).spec_font() == old(self).spec_font(),
    {
        let copy_len = if self.front_buffer.len() < self.back_buffer.len() {
            self.front_buffer.len()
        } else {
            self.back_buffer.len()
        };
        let mut i: usize = 0;
        while i < copy_len
            invariant
                i <= copy_len,
                copy_len == min_len(old(self).front().len(), old(self).back().len()),
                self.back() == old(self).back(),
                self.spec_info() == old(self).spec_info(),
                self.spec_font() == old(self).spec_font(),
                self.front().len() == old(self).front().len(),
                forall|j: int| 0 <= j < i ==> self.front()[j] == old(self).back()[j],
                forall|j: int| i <= j < self.front().len() ==> self.front()[j] == old(self).front()[j],
            decreases copy_len - i,
        {
            let v = self.back_buffer[i];
            self.front_buffer.set(i, v);
            i = i + 1;
        }
        proof {
            assert(self.front() =~= old(self).back().subrange(0, copy_len as int) + old(
                self,
            ).front().subrange(copy_len as int, old(self).front().len() as int));
        }
    }
}

/// What `clear` asks of the buffer: pixels of at least one byte, and with
/// four bytes per pixel no pixel whose fourth byte would fall off the end.
pub open spec fn clearable(info: FrameBufferInfo, len: int) -> bool {
    &&& info.bytes_per_pixel > 0
    &&& info.bytes_per_pixel == 4 ==> len % 4 != 3
}

/// Every pixel start that `clear` paints keeps its fourth byte inside.
proof fn lemma_clear_offset(info: FrameBufferInfo, len: int, k: int)
    requires
        clearable(info, len),
        0 <= k,
    ensures
        0 <= k * info.bytes_per_pixel,
        alpha_in(info, len, k * info.bytes_per_pixel),
{
    let bpp = info.bytes_per_pixel as int;
    assert(0 <= k * bpp) by (nonlinear_arith)
        requires
            0 <= k,
            0 < bpp,
    ;
    if bpp == 4 {
        assert((k * 4 + 3) % 4 == 3) by (nonlinear_arith)
            requires
                0 <= k,
        ;
    }
}

/// Painting the first pixel starts keeps the buffer's length.
proof fn lemma_paint_first_len(buf: Seq<u8>, info: FrameBufferInfo, n: nat, r: u8, g: u8, b: u8)
    requires
        clearable(info, buf.len() as int),
    ensures
        paint_first(buf, info, n, r, g, b).len() == buf.len(),
    decreases n,
{
    if n > 0 {
        lemma_paint_first_len(buf, info, (n - 1) as nat, r, g, b);
        lemma_clear_offset(info, buf.len() as int, n - 1);
        lemma_paint_len(
            paint_first(buf, info, (n - 1) as nat, r, g, b),
            (n - 1) * info.bytes_per_pixel,
            info,
            r,
            g,
            b,
        );
    }
}

/// Painting the first pixel starts of two buffers of one length: each byte
/// is either left as it was in both, or ends the same in both.
proof fn lemma_paint_first_same_writes(
    b1: Seq<u8>,
    b2: Seq<u8>,
    info: FrameBufferInfo,
    n: nat,
    r: u8,
    g: u8,
    b: u8,
    j: int,
)
    requires
        b1.len() == b2.len(),
        clearable(info, b1.len() as int),
        0 <= j < b1.len(),
    ensures
        (paint_first(b1, info, n, r, g, b)[j] == b1[j] && paint_first(b2, info, n, r, g, b)[j]
            == b2[j]) || paint_first(b1, info, n, r, g, b)[j] == paint_first(b2, info, n, r, g, b)[j],
    decreases n,
{
    if n > 0 {
        let a1 = paint_first(b1, info, (n - 1) as nat, r, g, b);
        let a2 = paint_first(b2, info, (n - 1) as nat, r, g, b);
        lemma_paint_first_same_writes(b1, b2, info, (n - 1) as nat, r, g, b, j);
        lemma_paint_first_len(b1, info, (n - 1) as nat, r, g, b);
        lemma_paint_first_len(b2, info, (n - 1) as nat, r, g, b);
        lemma_clear_offset(info, b1.len() as int, n - 1);
        lemma_paint_same_writes(a1, a2, (n - 1) * info.bytes_per_pixel, info, r, g, b, j);
    }
}

/// Clearing twice in the same colour leaves the back buffer as clearing
/// once.
pub proof fn law_clear_twice(buf: Seq<u8>, info: FrameBufferInfo, r: u8, g: u8, b: u8)
    requires
        clearable(info, buf.len() as int),
    ensures
        ({
            let n = pixel_starts(buf.len() as int, info.bytes_per_pixel as int) as nat;
            paint_first(paint_first(buf, info, n, r, g, b), info, n, r, g, b) == paint_first(
                buf,
                info,
                n,
                r,
                g,
                b,
            )
        }),
{
    let n = pixel_starts(buf.len() as int, info.bytes_per_pixel as int) as nat;
    let once = paint_first(buf, info, n, r, g, b);
    let twice = paint_first(once, info, n, r, g, b);
    lemma_paint_first_len(buf, info, n, r, g, b);
    lemma_paint_first_len(once, info, n, r, g, b);
    assert forall|j: int| 0 <= j < buf.len() implies twice[j] == once[j] by {
        lemma_paint_first_same_writes(buf, once, info, n, r, g, b, j);
    }
    assert(twice =~= once);
}

/// Painting again one of the pixels that `paint_first` painted, in the same
/// colour, changes nothing when pixels do not share bytes.
proof fn lemma_paint_first_absorbs(
    buf: Seq<u8>,
    info: FrameBufferInfo,
    n: nat,
    m: int,
    r: u8,
    g: u8,
    b: u8,
)
    requires
        clearable(info, buf.len() as int),
        writes_within_pixel(info),
        0 <= m < n,
    ensures
        paint(paint_first(buf, info, n, r, g, b), m * info.bytes_per_pixel, info, r, g, b)
            == paint_first(buf, info, n, r, g, b),
    decreases n,
{
    let bpp = info.bytes_per_pixel as int;
    let before = paint_first(buf, info, (n - 1) as nat, r, g, b);
    lemma_paint_first_len(buf, info, (n - 1) as nat, r, g, b);
    lemma_clear_offset(info, buf.len() as int, m);
    lemma_clear_offset(info, buf.len() as int, n - 1);
    if m == n - 1 {
        lemma_paint_twice(before, m * bpp, info, r, g, b);
    } else {
        assert(m * bpp + bpp <= (n - 1) * bpp) by (nonlinear_arith)
            requires
                m < n - 1,
                0 < bpp,
        ;
        lemma_paint_commute(before, m * bpp, (n - 1) * bpp, info, r, g, b);
        lemma_paint_first_absorbs(buf, info, (n - 1) as nat, m, r, g, b);
    }
}

/// After a clear, drawing any pixel in the clearing colour leaves the back
/// buffer unchanged, as long as pixels do not share bytes (three colour
/// bytes need three bytes per pixel).
pub proof fn law_draw_pixel_after_clear(
    buf: Seq<u8>,
    info: FrameBufferInfo,
    x: int,
    y: int,
    r: u8,
    g: u8,
    b: u8,
)
    requires
        clearable(info, buf.len() as int),
        writes_within_pixel(info),
    ensures
        ({
            let cleared = paint_first(
                buf,
                info,
                pixel_starts(buf.len() as int, info.bytes_per_pixel as int) as nat,
                r,
                g,
                b,
            );
            plot(cleared, info, x, y, r, g, b) == cleared
        }),
{
    let bpp = info.bytes_per_pixel as int;
    let len = buf.len() as int;
    let n = pixel_starts(len, bpp) as nat;
    let cleared = paint_first(buf, info, n, r, g, b);
    lemma_paint_first_len(buf, info, n, r, g, b);
    if visible(info, x, y) {
        let m = y * info.stride + x;
        assert(0 <= m) by (nonlinear_arith)
            requires
                m == y * info.stride + x,
                0 <= info.stride,
                0 <= x,
                0 <= y,
        ;
        assert(pixel_offset(info, x, y) == m * bpp) by (nonlinear_arith)
            requires
                m == y * info.stride + x,
                bpp == info.bytes_per_pixel,
        ;
        if m * bpp + 2 < len {
            assert(m < n) by (nonlinear_arith)
                requires
                    m * bpp + 2 < len,
                    0 < bpp,
                    0 <= m,
                    n == (len + bpp - 1) / bpp,
            ;
            lemma_paint_first_absorbs(buf, info, n, m, r, g, b);
        }
    }
}

/// The set pixels of a glyph row depend on the character only through the
/// glyph it is drawn with.
proof fn lemma_glyph_row_points_by_glyph(font: Font, c: char, d: char, x: int, y: int, row: int, n: nat)
    requires
        glyph_index(c) == glyph_index(d),
    ensures
        glyph_row_points(font, c, x, y, row, n) == glyph_row_points(font, d, x, y, row, n),
    decreases n,
{
    if n > 0 {
        lemma_glyph_row_points_by_glyph(font, c, d, x, y, row, (n - 1) as nat);
    }
}

/// The set pixels of a glyph depend on the character only through the
/// glyph it is drawn with.
proof fn lemma_glyph_points_by_glyph(font: Font, c: char, d: char, x: int, y: int, rows: nat)
    requires
        glyph_index(c) == glyph_index(d),
    ensures
        glyph_points(font, c, x, y, rows) == glyph_points(font, d, x, y, rows),
    decreases rows,
{
    if rows > 0 {
        lemma_glyph_points_by_glyph(font, c, d, x, y, (rows - 1) as nat);
        lemma_glyph_row_points_by_glyph(font, c, d, x, y, rows - 1, font.spec_width() as nat);
    }
}

/// A character outside ASCII is drawn with glyph 0: `draw_char` draws for
/// it exactly what it draws for `'\0'`.
pub proof fn law_non_ascii_draws_glyph_zero(
    buf: Seq<u8>,
    info: FrameBufferInfo,
    font: Font,
    c: char,
    x: int,
    y: int,
    r: u8,
    g: u8,
    b: u8,
)
    requires
        (c as int) >= 128,
    ensures
        glyph_points(font, c, x, y, font.spec_height() as nat) == glyph_points(
            font,
            '\0',
            x,
            y,
            font.spec_height() as nat,
        ),
        plot_all(buf, info, glyph_points(font, c, x, y, font.spec_height() as nat), r, g, b)
            == plot_all(buf, info, glyph_points(font, '\0', x, y, font.spec_height() as nat), r, g, b),
        char_fits(info, buf.len() as int, font, c, x, y) == char_fits(
            info,
            buf.len() as int,
            font,
            '\0',
            x,
            y,
        ),
{
    assert(('\0' as int) == 0);
    lemma_glyph_points_by_glyph(font, c, '\0', x, y, font.spec_height() as nat);
}

/// The back buffer after `draw_char` has drawn each character of `s` in
/// turn, the `i`-th at `(x + i * font width, y)`.
pub open spec fn draw_chars(
    buf: Seq<u8>,
    info: FrameBufferInfo,
    font: Font,
    x: int,
    y: int,
    s: Seq<char>,
    r: u8,
    g: u8,
    b: u8,
) -> Seq<u8>
    decreases s.len(),
{
    if s.len() == 0 {
        buf
    } else {
        plot_all(
            draw_chars(buf, info, font, x, y, s.drop_last(), r, g, b),
            info,
            glyph_points(font, s.last(), x + (s.len() - 1) * font.spec_width(), y, font.spec_height() as nat),
            r,
            g,
            b,
        )
    }
}

/// Without newlines, and with room for one more character on the line,
/// the cursor after `s` stands `s.len()` characters right of `x`.
proof fn lemma_cursor_in_row(font: Font, width: int, x: int, y: int, s: Seq<char>)
    requires
        forall|i: int| 0 <= i < s.len() ==> s[i] != '\n',
        x + (s.len() + 1) * font.spec_width() < width,
    ensures
        text_cursor(font, width, x, y, s) == (x + s.len() * font.spec_width(), y),
    decreases s.len(),
{
    if s.len() > 0 {
        let t = s.drop_last();
        let fw = font.spec_width() as int;
        let n = s.len() as int;
        assert(x + (t.len() + 1) * fw < width) by (nonlinear_arith)
            requires
                x + (n + 1) * fw < width,
                t.len() == n - 1,
                0 <= fw,
        ;
        assert forall|i: int| 0 <= i < t.len() implies t[i] != '\n' by {
            assert(t[i] == s[i]);
        }
        lemma_cursor_in_row(font, width, x, y, t);
        assert(s.last() == s[n - 1]);
        assert((n - 1) * fw + fw + fw == (n + 1) * fw && (n - 1) * fw + fw == n * fw) by (nonlinear_arith);
    }
}

/// A string without newlines that fits on the line is drawn as `draw_char`
/// of each of its characters in order, one font width apart.
pub proof fn law_draw_string_draws_each_char(
    buf: Seq<u8>,
    info: FrameBufferInfo,
    font: Font,
    x: int,
    y: int,
    s: Seq<char>,
    r: u8,
    g: u8,
    b: u8,
)
    requires
        forall|i: int| 0 <= i < s.len() ==> s[i] != '\n',
        x + s.len() * font.spec_width() < info.width,
    ensures
        plot_all(buf, info, text_points(font, info.width as int, x, y, s), r, g, b) == draw_chars(
            buf,
            info,
            font,
            x,
            y,
            s,
            r,
            g,
            b,
        ),
    decreases s.len(),
{
    if s.len() > 0 {
        let t = s.drop_last();
        let fw = font.spec_width() as int;
        let n = s.len() as int;
        assert(x + t.len() * fw < info.width) by (nonlinear_arith)
            requires
                x + n * fw < info.width,
                t.len() == n - 1,
                0 <= fw,
        ;
        assert(x + (t.len() + 1) * fw < info.width);
        assert forall|i: int| 0 <= i < t.len() implies t[i] != '\n' by {
            assert(t[i] == s[i]);
        }
        lemma_cursor_in_row(font, info.width as int, x, y, t);
        law_draw_string_draws_each_char(buf, info, font, x, y, t, r, g, b);
        assert(s.last() == s[n - 1]);
        let glyph = glyph_points(font, s.last(), x + (n - 1) * fw, y, font.spec_height() as nat);
        assert(text_points(font, info.width as int, x, y, s) == text_points(
            font,
            info.width as int,
            x,
            y,
            t,
        ) + glyph);
        lemma_plot_all_append(buf, info, text_points(font, info.width as int, x, y, t), glyph, r, g, b);
    }
}

/// A string without newlines that fits on the line may be drawn whenever
/// each of its characters may be drawn with `draw_char` at its place, the
/// rows below `y` fit in a `usize`, and so does the column one character
/// past the end (where the cursor is moved to).
pub proof fn law_one_line_string_fits(
    info: FrameBufferInfo,
    len: int,
    font: Font,
    x: int,
    y: int,
    s: Seq<char>,
)
    requires
        forall|i: int| 0 <= i < s.len() ==> s[i] != '\n',
        x + s.len() * font.spec_width() < info.width,
        x + (s.len() + 1) * font.spec_width() <= usize::MAX,
        y + font.spec_height() <= usize::MAX,
        forall|i: int|
            0 <= i < s.len() ==> char_fits(info, len, font, #[trigger] s[i], x + i * font.spec_width(), y),
    ensures
        text_fits(info, len, font, x, y, s),
    decreases s.len(),
{
    if s.len() > 0 {
        let t = s.drop_last();
        let fw = font.spec_width() as int;
        let n = s.len() as int;
        assert(x + t.len() * fw < info.width && x + (t.len() + 1) * fw <= usize::MAX) by (
        nonlinear_arith)
            requires
                x + n * fw < info.width,
                x + (n + 1) * fw <= usize::MAX,
                t.len() == n - 1,
                0 <= fw,
        ;
        assert forall|i: int| 0 <= i < t.len() implies t[i] != '\n' && char_fits(
            info,
            len,
            font,
            #[trigger] t[i],
            x + i * fw,
            y,
        ) by {
            assert(t[i] == s[i]);
        }
        law_one_line_string_fits(info, len, font, x, y, t);
        lemma_cursor_in_row(font, info.width as int, x, y, t);
        assert(s.last() == s[n - 1]);
        assert((n - 1) * fw + fw + fw == (n + 1) * fw) by (nonlinear_arith);
    }
}

/// A newline starts a new line at the column the string started at: laid
/// out from `(x, y)`, `s`, a newline and then `t` put the cursor, and draw
/// the pixels, that `s` alone followed by `t` laid out afresh from column
/// `x` one font height below the row `s` ended on would.
pub proof fn law_newline_returns_to_start_column(
    font: Font,
    width: int,
    x: int,
    y: int,
    s: Seq<char>,
    t: Seq<char>,
)
    ensures
        ({
            let cy = text_cursor(font, width, x, y, s).1;
            let next = cy + font.spec_height();
            &&& text_cursor(font, width, x, y, s.push('\n')) == (x, next)
            &&& text_cursor(font, width, x, y, s.push('\n') + t) == text_cursor(font, width, x, next, t)
            &&& text_points(font, width, x, y, s.push('\n') + t) == text_points(font, width, x, y, s)
                + text_points(font, width, x, next, t)
        }),
    decreases t.len(),
{
    let cy = text_cursor(font, width, x, y, s).1;
    let next = cy + font.spec_height();
    let line = s.push('\n');
    assert(line.drop_last() =~= s);
    if t.len() == 0 {
        assert(line + t =~= line);
        assert(text_points(font, width, x, y, s) + text_points(font, width, x, next, t) =~= text_points(
            font,
            width,
            x,
            y,
            s,
        ));
    } else {
        law_newline_returns_to_start_column(font, width, x, y, s, t.drop_last());
        let u = line + t;
        assert(u.drop_last() =~= line + t.drop_last());
        assert(u.last() == t.last());
        let before = text_points(font, width, x, y, s);
        assert(before + text_points(font, width, x, next, t) =~= if t.last() == '\n' {
            before + text_points(font, width, x, next, t.drop_last())
        } else {
            (before + text_points(font, width, x, next, t.drop_last())) + glyph_points(
                font,
                t.last(),
                text_cursor(font, width, x, next, t.drop_last()).0,
                text_cursor(font, width, x, next, t.drop_last()).1,
                font.spec_height() as nat,
            )
        });
    }
}

/// Drawing `s`, a newline and `t` from `(x, y)` draws what drawing `s`
/// from `(x, y)` and then `t` from `(x, cy + font height)` draws, where
/// `cy` is the row `s` ended on: every line starts at column `x`.
pub proof fn law_draw_string_lines_start_at_x(
    buf: Seq<u8>,
    info: FrameBufferInfo,
    font: Font,
    x: int,
    y: int,
    s: Seq<char>,
    t: Seq<char>,
    r: u8,
    g: u8,
    b: u8,
)
    ensures
        ({
            let w = info.width as int;
            let next = text_cursor(font, w, x, y, s).1 + font.spec_height();
            plot_all(buf, info, text_points(font, w, x, y, s.push('\n') + t), r, g, b) == plot_all(
                plot_all(buf, info, text_points(font, w, x, y, s), r, g, b),
                info,
                text_points(font, w, x, next, t),
                r,
                g,
                b,
            )
        }),
{
    let w = info.width as int;
    let next = text_cursor(font, w, x, y, s).1 + font.spec_height();
    law_newline_returns_to_start_column(font, w, x, y, s, t);
    lemma_plot_all_append(buf, info, text_points(font, w, x, y, s), text_points(font, w, x, next, t), r, g, b);
}

/// The smaller of two lengths.
pub open spec fn min_len(a: nat, b: nat) -> nat {
    if a < b {
        a
    } else {
        b
    }
}

} // verus!
