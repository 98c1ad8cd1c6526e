//! Software rasteriser over four indexed 320x200 pages.
//!
//! The four pages lie one after another in a single buffer; page `n` starts
//! at byte `n * FB_SIZE`. A pixel is a palette index in the low nibble.

use super::{QuadStrip, RgbColor, Vertex};
use vstd::prelude::*;

verus! {

pub const SCR_W: u16 = 320;

pub const SCR_H: u16 = 200;

pub const FB_SIZE: usize = 64000;

/// Number of pages.
pub const FB_COUNT: u8 = 4;

/// Pseudo colour: set bit 3 of what is already there.
pub const COL_ALPHA: u8 = 0x10;

/// Pseudo colour: take the pixel of page 0 at the same place.
pub const COL_PAGE: u8 = 0x11;

pub struct State {
    pub(crate) fb: Vec<u8>,
    pub(crate) pal: [RgbColor; 16],
}

/// What a `State` holds: the bytes of the four pages and the palette.
pub struct StateView {
    pub fb: Seq<u8>,
    pub pal: Seq<RgbColor>,
}

impl View for State {
    type V = StateView;

    open(crate) spec fn view(&self) -> StateView {
        StateView { fb: self.fb@, pal: self.pal@ }
    }
}

/// Offset of the first byte of page `fb`.
pub open spec fn page_start(fb: u8) -> int {
    fb as int * 64000
}

/// The pages after page `fb` was filled with `color`.
pub open spec fn cleared(fbs: Seq<u8>, fb: u8, color: u8) -> Seq<u8> {
    Seq::new(
        fbs.len(),
        |k: int|
            if page_start(fb) <= k < page_start(fb) + 64000 {
                color
            } else {
                fbs[k]
            },
    )
}

/// The pages after page `src` was copied onto page `dst`, shifted down by
/// `v_scroll` lines (up, if negative). Lines shifted off the page are lost,
/// lines of `dst` that nothing is shifted onto stay. Out of `-199..=199`
/// nothing is copied.
pub open spec fn copied(fbs: Seq<u8>, dst: u8, src: u8, v_scroll: int) -> Seq<u8> {
    Seq::new(
        fbs.len(),
        |k: int|
            {
                let rel = k - page_start(dst);
                let from = rel - v_scroll * 320;
                if -199 <= v_scroll <= 199 && 0 <= rel < 64000 && 0 <= from < 64000 {
                    fbs[page_start(src) + from]
                } else {
                    fbs[k]
                }
            },
    )
}

/// The value that drawing with `color` gives the pixel at offset `rel` of
/// page `fb`.
pub open spec fn inked(fbs: Seq<u8>, fb: u8, rel: int, color: u8) -> u8 {
    if color == COL_ALPHA {
        fbs[page_start(fb) + rel] | 8
    } else if color == COL_PAGE {
        fbs[rel]
    } else {
        color
    }
}

/// The pages after `w` pixels from offset `offset` of page `fb` were drawn
/// with `color`.
pub open spec fn lined(fbs: Seq<u8>, fb: u8, offset: int, w: int, color: u8) -> Seq<u8> {
    Seq::new(
        fbs.len(),
        |k: int|
            {
                let rel = k - page_start(fb);
                if offset <= rel < offset + w {
                    inked(fbs, fb, rel, color)
                } else {
                    fbs[k]
                }
            },
    )
}

/// The pages after the pixel `(x, y)` of page `fb` was drawn with `color`.
pub open spec fn dotted(fbs: Seq<u8>, fb: u8, x: int, y: int, color: u8) -> Seq<u8> {
    lined(fbs, fb, y * 320 + x, 1, color)
}

/// Whether column `pixel` (0 is leftmost) is set in a font row.
pub open spec fn font_bit(line: u8, pixel: u8) -> bool {
    line & (1u8 << ((7 - pixel) as u8)) != 0
}

/// Whether `c` has a glyph in a font of 96 glyphs starting at the space.
pub open spec fn has_glyph(c: char) -> bool {
    0x20 <= c as u32 && (c as u32) < 0x80
}

/// The pages after the 8x8 glyph of `c` was drawn on page `fb` with its top
/// left corner at `(x, y)`. A glyph that would cross the right or bottom
/// edge is not drawn at all.
pub open spec fn glyphed(
    fbs: Seq<u8>,
    fb: u8,
    x: int,
    y: int,
    c: char,
    color: u8,
    font: Seq<u8>,
) -> Seq<u8> {
    Seq::new(
        fbs.len(),
        |k: int|
            {
                let rel = k - page_start(fb);
                let px = rel % 320 - x;
                let py = rel / 320 - y;
                if x <= 312 && y <= 192 && 0 <= rel < 64000 && 0 <= px < 8 && 0 <= py < 8
                    && font_bit(font[(c as u32 - 0x20) * 8 + py], px as u8) {
                    color
                } else {
                    fbs[k]
                }
            },
    )
}

/// The 16.16 fixed-point increment per line of an edge that moves `dx`
/// pixels sideways over `dy` lines, rounded towards zero, in two's
/// complement.
pub open spec fn edge_step(dx: i16, dy: u16) -> u32 {
    let delta: int = if dy == 0 {
        1
    } else {
        dy as int
    };
    if dx >= 0 {
        ((dx as int * 65536) / delta) as u32
    } else {
        0u32.wrapping_sub(((-(dx as int) * 65536) / delta) as u32)
    }
}

/// Number of lines between two corners, as the rasteriser counts them.
pub open spec fn edge_height(v1: Vertex, v2: Vertex) -> u16 {
    v2.y.wrapping_sub(v1.y) as u16
}

/// Increment per line of the edge from `v1` to `v2`.
pub open spec fn edge_slope(v1: Vertex, v2: Vertex) -> u32 {
    edge_step(v2.x.wrapping_sub(v1.x), edge_height(v1, v2))
}

/// The pixel column that a fixed-point edge position stands for.
pub open spec fn edge_x(cpt: u32) -> i16 {
    (cpt >> 16) as i16
}

/// The pages after one line of a strip was drawn on line `y`, between the
/// edge positions `cpt1` and `cpt2`, clipped to the screen.
pub open spec fn scanline(fbs: Seq<u8>, fb: u8, color: u8, cpt1: u32, cpt2: u32, y: i16) -> Seq<
    u8,
> {
    let x1 = edge_x(cpt1);
    let x2 = edge_x(cpt2);
    if 0 <= y < 200 && x1 < 320 && x2 >= 0 {
        let a: int = if x1 < 0 {
            0
        } else {
            x1 as int
        };
        let b: int = if x2 >= 320 {
            319
        } else {
            x2 as int
        };
        let lo = if a < b {
            a
        } else {
            b
        };
        let hi = if a < b {
            b
        } else {
            a
        };
        lined(fbs, fb, y * 320 + lo, hi - lo + 1, color)
    } else {
        fbs
    }
}

/// Where the rasteriser stands after some lines of a strip.
pub struct Rows {
    pub fb: Seq<u8>,
    pub cpt1: u32,
    pub cpt2: u32,
    pub y: i16,
    /// The bottom of the screen was reached: the polygon is finished.
    pub stop: bool,
}

/// Draws `h` lines of a strip from line `y` down, moving both edges by their
/// steps after each line, and stops early below the last screen line.
pub open spec fn rows(
    fbs: Seq<u8>,
    fb: u8,
    color: u8,
    cpt1: u32,
    cpt2: u32,
    step1: u32,
    step2: u32,
    y: i16,
    h: u16,
) -> Rows
    decreases h,
{
    if h == 0 {
        Rows { fb: fbs, cpt1, cpt2, y, stop: false }
    } else {
        let drawn = scanline(fbs, fb, color, cpt1, cpt2, y);
        let c1 = cpt1.wrapping_add(step1);
        let c2 = cpt2.wrapping_add(step2);
        if y >= 199 {
            Rows { fb: drawn, cpt1: c1, cpt2: c2, y, stop: true }
        } else {
            rows(drawn, fb, color, c1, c2, step1, step2, (y + 1) as i16, (h - 1) as u16)
        }
    }
}

/// The left edge position at the start of a strip: the pixel column is kept
/// and the fraction is set just below one half.
pub open spec fn bias_low(cpt: u32) -> u32 {
    (cpt & 0xFFFF0000) | 0x7FFF
}

/// The right edge position at the start of a strip: the pixel column is kept
/// and the fraction is set to one half.
pub open spec fn bias_high(cpt: u32) -> u32 {
    (cpt & 0xFFFF0000) | 0x8000
}

/// Draws the strips that are left when the walk from the outside in has
/// reached the corners `i` (from the front) and `j` (from the back), with
/// `count` corners not yet passed.
pub open spec fn strips(
    fbs: Seq<u8>,
    fb: u8,
    color: u8,
    vs: Seq<Vertex>,
    i: int,
    j: int,
    count: int,
    cpt1: u32,
    cpt2: u32,
    y: i16,
) -> Seq<u8>
    decreases count,
{
    if count <= 2 {
        fbs
    } else {
        let step1 = edge_slope(vs[j + 1], vs[j]);
        let step2 = edge_slope(vs[i - 1], vs[i]);
        let h = edge_height(vs[i - 1], vs[i]);
        let c1 = bias_low(cpt1);
        let c2 = bias_high(cpt2);
        if h == 0 {
            strips(
                fbs,
                fb,
                color,
                vs,
                i + 1,
                j - 1,
                count - 2,
                c1.wrapping_add(step1),
                c2.wrapping_add(step2),
                y,
            )
        } else {
            let r = rows(fbs, fb, color, c1, c2, step1, step2, y, h);
            if r.stop {
                r.fb
            } else {
                strips(r.fb, fb, color, vs, i + 1, j - 1, count - 2, r.cpt1, r.cpt2, r.y)
            }
        }
    }
}

/// The pages after the quad strip `vs` was filled on page `fb`.
///
/// The corners are walked in pairs from the outside in: the first with the
/// last, the second with the last but one, and so on. Each pair of
/// neighbouring pairs bounds one strip, which is filled line by line from
/// the top. Two corners or fewer draw nothing.
pub open spec fn polygon_drawn(fbs: Seq<u8>, fb: u8, vs: Seq<Vertex>, color: u8) -> Seq<u8> {
    if vs.len() <= 2 {
        fbs
    } else {
        let n = vs.len() as int;
        let top = if vs[0].y < vs[n - 1].y {
            vs[0].y
        } else {
            vs[n - 1].y
        };
        strips(
            fbs,
            fb,
            color,
            vs,
            1,
            n - 2,
            n,
            (vs[n - 1].x as u32) << 16,
            (vs[0].x as u32) << 16,
            top,
        )
    }
}

/// The RGB565 word of a colour: the top five, six and five bits of red,
/// green and blue.
pub open spec fn rgb565(c: RgbColor) -> u16 {
    (((c.r as u16) & 0xF8) << 8) | (((c.g as u16) & 0xFC) << 3) | ((c.b as u16) >> 3)
}

/// The RGB565 words of page `fb` under the palette `pal`; only the low nibble
/// of a pixel selects the colour.
pub open spec fn page_rgb565(fbs: Seq<u8>, pal: Seq<RgbColor>, fb: u8) -> Seq<u16> {
    Seq::new(64000, |i: int| rgb565(pal[(fbs[page_start(fb) + i] & 0x0F) as int]))
}

impl State {
    /// Four pages of `FB_SIZE` bytes each.
    pub open spec fn wf(&self) -> bool {
        &&& self@.fb.len() == 4 * 64000
        &&& self@.pal.len() == 16
    }

    /// The byte at offset `rel` of page `fb`.
    pub open spec fn spec_pixel(&self, fb: u8, rel: int) -> u8 {
        self@.fb[page_start(fb) + rel]
    }

    /// Black pages and an all-black palette.
    pub fn new() -> (s: Self)
        ensures
            s.wf(),
            s@.fb == Seq::new(256000, |k: int| 0u8),
            s@.pal == Seq::new(16, |k: int| RgbColor { r: 0, g: 0, b: 0 }),
    {
        let fb = vec![0u8; 256000];
        let pal = [RgbColor { r: 0, g: 0, b: 0 };16];
        assert(fb@ =~= Seq::new(256000, |k: int| 0u8));
        assert(pal@ =~= Seq::new(16, |k: int| RgbColor { r: 0, g: 0, b: 0 }));
        State { fb, pal }
    }

    /// The pixel at `(x, y)` of page `fb`.
    pub fn pixel(&self, fb: u8, x: u16, y: u16) -> (c: u8)
        requires
            self.wf(),
            fb < 4,
            x < 320,
            y < 200,
        ensures
            c == self.spec_pixel(fb, y * 320 + x),
    {
        self.fb[fb as usize * FB_SIZE + y as usize * 320 + x as usize]
    }

    /// Converts page `fb` to RGB565 through the palette, into the first
    /// `FB_SIZE` words of `out`.
    pub fn read_pixels(&self, fb: u8, out: &mut [u16])
        requires
            self.wf(),
            fb < 4,
            old(out)@.len() >= 64000,
        ensures
            final(out)@.len() == old(out)@.len(),
            final(out)@.subrange(0, 64000) == page_rgb565(self@.fb, self@.pal, fb),
            forall|i: int| 64000 <= i < old(out)@.len() ==> final(out)@[i] == old(out)@[i],
    {
        let base = fb as usize * FB_SIZE;
        let mut i: usize = 0;
        while i < FB_SIZE
            invariant
                self.wf(),
                fb < 4,
                base == page_start(fb),
                i <= 64000,
                out@.len() == old(out)@.len(),
                out@.len() >= 64000,
                forall|k: int| 0 <= k < i ==> out@[k] == page_rgb565(self@.fb, self@.pal, fb)[k],
                forall|k: int| i <= k < out@.len() ==> out@[k] == old(out)@[k],
            decreases 64000 - i,
        {
            let pixel = self.fb[base + i];
            assert(pixel & 0x0F < 16) by (bit_vector);
            out[i] = self.pal[(pixel & 0x0F) as usize].as_rgb565();
            i += 1;
        }
        assert(out@.subrange(0, 64000) =~= page_rgb565(self@.fb, self@.pal, fb));
    }

    pub fn set_pal(&mut self, pal: [RgbColor; 16])
        ensures
            final(self)@.pal == pal@,
            final(self)@.fb == old(self)@.fb,
    {
        self.pal = pal;
    }
}

impl RgbColor {
    pub fn as_rgb565(self) -> (w: u16)
        ensures
            w == rgb565(self),
    {
        let r = ((self.r as u16) & 0xF8) << 8;
        let g = ((self.g as u16) & 0xFC) << 3;
        let b = (self.b as u16) >> 3;
        r | g | b
    }
}

/// Fills page `fb` with `color`.
pub fn clear_fb(s: &mut State, fb: u8, color: u8)
    requires
        old(s).wf(),
        fb < 4,
    ensures
        final(s).wf(),
        final(s)@.pal == old(s)@.pal,
        final(s)@.fb == cleared(old(s)@.fb, fb, color),
{
    let base = fb as usize * FB_SIZE;
    let mut i: usize = 0;
    while i < FB_SIZE
        invariant
            s.wf(),
            s@.pal == old(s)@.pal,
            fb < 4,
            base == page_start(fb),
            i <= 64000,
            forall|k: int|
                0 <= k < 256000 ==> s@.fb[k] == if base <= k < base + i {
                    color
                } else {
                    old(s)@.fb[k]
                },
        decreases 64000 - i,
    {
        s.fb[base + i] = color;
        i += 1;
    }
    assert(s@.fb =~= cleared(old(s)@.fb, fb, color));
}

/// Copies page `src_fb` onto page `dst_fb`, shifted down by `v_scroll` lines.
#[verifier::rlimit(40)]
pub fn copy_fb(s: &mut State, dst_fb: u8, src_fb: u8, v_scroll: i32)
    requires
        old(s).wf(),
        dst_fb < 4,
        src_fb < 4,
        dst_fb != src_fb,
    ensures
        final(s).wf(),
        final(s)@.pal == old(s)@.pal,
        final(s)@.fb == copied(old(s)@.fb, dst_fb, src_fb, v_scroll as int),
{
    if v_scroll < -199 || v_scroll > 199 {
        assert(s@.fb =~= copied(old(s)@.fb, dst_fb, src_fb, v_scroll as int));
        return ;
    }
    let lines: usize = if v_scroll < 0 {
        (-v_scroll) as usize
    } else {
        v_scroll as usize
    };
    let skip = lines * 320;
    let count = 64000 - skip;
    let (src, dst) = if v_scroll < 0 {
        (src_fb as usize * FB_SIZE + skip, dst_fb as usize * FB_SIZE)
    } else {
        (src_fb as usize * FB_SIZE, dst_fb as usize * FB_SIZE + skip)
    };
    let mut i: usize = 0;
    while i < count
        invariant
            s.wf(),
            s@.pal == old(s)@.pal,
            old(s).wf(),
            dst_fb < 4,
            src_fb < 4,
            dst_fb != src_fb,
            -199 <= v_scroll <= 199,
            skip == (if v_scroll < 0 {
                -v_scroll
            } else {
                v_scroll as int
            }) * 320,
            count == 64000 - skip,
            src == page_start(src_fb) + (if v_scroll < 0 {
                skip as int
            } else {
                0
            }),
            dst == page_start(dst_fb) + (if v_scroll < 0 {
                0
            } else {
                skip as int
            }),
            i <= count,
            forall|k: int|
                0 <= k < 256000 ==> s@.fb[k] == if dst <= k < dst + i {
                    old(s)@.fb[src + (k - dst)]
                } else {
                    old(s)@.fb[k]
                },
        decreases count - i,
    {
        let b = s.fb[src + i];
        s.fb[dst + i] = b;
        i += 1;
    }
    assert(s@.fb =~= copied(old(s)@.fb, dst_fb, src_fb, v_scroll as int));
}

/// Draws one pixel.
pub fn draw_point(s: &mut State, fb: u8, x: u16, y: u16, color: u8)
    requires
        old(s).wf(),
        fb < 4,
        x < 320,
        y < 200,
    ensures
        final(s).wf(),
        final(s)@.pal == old(s)@.pal,
        final(s)@.fb == dotted(old(s)@.fb, fb, x as int, y as int, color),
{
    let ink = if color == COL_ALPHA {
        grab(s, fb, x, y) | 8
    } else if color == COL_PAGE {
        grab(s, 0, x, y)
    } else {
        color
    };
    out(s, fb, x, y, ink);
    assert(s@.fb =~= dotted(old(s)@.fb, fb, x as int, y as int, color));
}

/// Fills the quad strip `qs` on page `fb`.
#[verifier::rlimit(40)]
pub fn draw_polygon(s: &mut State, fb: u8, qs: &QuadStrip, color: u8)
    requires
        old(s).wf(),
        fb < 4,
    ensures
        final(s).wf(),
        final(s)@.pal == old(s)@.pal,
        final(s)@.fb == polygon_drawn(old(s)@.fb, fb, qs@, color),
{
    let vs = qs.vertices();
    let n = vs.len();
    if n <= 2 {
        return ;
    }
    let mut i: usize = 0;
    let mut j: usize = n - 1;
    let x2 = vs[i].x;
    let x1 = vs[j].x;
    let mut h_line_y = if vs[i].y < vs[j].y {
        vs[i].y
    } else {
        vs[j].y
    };
    i += 1;
    j -= 1;
    let mut cpt1 = (x1 as u32) << 16;
    let mut cpt2 = (x2 as u32) << 16;
    let mut count = n;
    while count > 2
        invariant
            s.wf(),
            s@.pal == old(s)@.pal,
            fb < 4,
            vs@ == qs@,
            n == vs@.len(),
            1 <= i,
            i + j == n - 1,
            count == n - 2 * (i - 1),
            strips(
                s@.fb,
                fb,
                color,
                vs@,
                i as int,
                j as int,
                count as int,
                cpt1,
                cpt2,
                h_line_y,
            ) == polygon_drawn(old(s)@.fb, fb, qs@, color),
        decreases count,
    {
        count -= 2;
        let (step1, _) = calc_step(vs[j + 1], vs[j]);
        let (step2, h) = calc_step(vs[i - 1], vs[i]);
        i += 1;
        j -= 1;
        cpt1 = (cpt1 & 0xFFFF0000) | 0x7FFF;
        cpt2 = (cpt2 & 0xFFFF0000) | 0x8000;
        if h == 0 {
            cpt1 = cpt1.wrapping_add(step1);
            cpt2 = cpt2.wrapping_add(step2);
        } else {
            let (c1, c2, y, stop) = draw_rows(s, fb, color, cpt1, cpt2, step1, step2, h_line_y, h);
            if stop {
                return ;
            }
            cpt1 = c1;
            cpt2 = c2;
            h_line_y = y;
        }
    }
}

/// Draws `h` lines of one strip and says where the edges then stand.
#[verifier::rlimit(40)]
fn draw_rows(
    s: &mut State,
    fb: u8,
    color: u8,
    cpt1: u32,
    cpt2: u32,
    step1: u32,
    step2: u32,
    y: i16,
    h: u16,
) -> (r: (u32, u32, i16, bool))
    requires
        old(s).wf(),
        fb < 4,
    ensures
        final(s).wf(),
        final(s)@.pal == old(s)@.pal,
        (Rows { fb: final(s)@.fb, cpt1: r.0, cpt2: r.1, y: r.2, stop: r.3 }) == rows(
            old(s)@.fb,
            fb,
            color,
            cpt1,
            cpt2,
            step1,
            step2,
            y,
            h,
        ),
{
    let mut c1 = cpt1;
    let mut c2 = cpt2;
    let mut line = y;
    let mut left = h;
    while left > 0
        invariant
            s.wf(),
            s@.pal == old(s)@.pal,
            fb < 4,
            rows(s@.fb, fb, color, c1, c2, step1, step2, line, left) == rows(
                old(s)@.fb,
                fb,
                color,
                cpt1,
                cpt2,
                step1,
                step2,
                y,
                h,
            ),
        decreases left,
    {
        left -= 1;
        draw_scanline(s, fb, color, c1, c2, line);
        c1 = c1.wrapping_add(step1);
        c2 = c2.wrapping_add(step2);
        if line >= 199 {
            return (c1, c2, line, true);
        }
        line += 1;
    }
    (c1, c2, line, false)
}

/// Draws the part of line `y` between two edge positions that is on screen.
fn draw_scanline(s: &mut State, fb: u8, color: u8, cpt1: u32, cpt2: u32, y: i16)
    requires
        old(s).wf(),
        fb < 4,
    ensures
        final(s).wf(),
        final(s)@.pal == old(s)@.pal,
        final(s)@.fb == scanline(old(s)@.fb, fb, color, cpt1, cpt2, y),
{
    if y < 0 || y >= 200 {
        return ;
    }
    let mut x1 = (cpt1 >> 16) as i16;
    let mut x2 = (cpt2 >> 16) as i16;
    if x1 < 320 && x2 >= 0 {
        if x1 < 0 {
            x1 = 0;
        }
        if x2 >= 320 {
            x2 = 319;
        }
        let (x_min, x_max) = if x1 < x2 {
            (x1, x2)
        } else {
            (x2, x1)
        };
        let w = (x_max - x_min + 1) as u16;
        let offset = y as usize * 320 + x_min as usize;
        draw_h_line(s, fb, offset, w, color);
    }
}

/// Height of the edge from `v1` to `v2` and its increment per line.
fn calc_step(v1: Vertex, v2: Vertex) -> (r: (u32, u16))
    ensures
        r.0 == edge_slope(v1, v2),
        r.1 == edge_height(v1, v2),
{
    let dy = v2.y.wrapping_sub(v1.y) as u16;
    let delta: u32 = if dy == 0 {
        1
    } else {
        dy as u32
    };
    let dx = v2.x.wrapping_sub(v1.x);
    let step = if dx >= 0 {
        (dx as u32 * 65536) / delta
    } else {
        0u32.wrapping_sub(((-(dx as i32)) as u32 * 65536) / delta)
    };
    (step, dy)
}

/// Draws `w` pixels from `offset` on, in the way that `color` selects.
fn draw_h_line(s: &mut State, fb: u8, offset: usize, w: u16, color: u8)
    requires
        old(s).wf(),
        fb < 4,
        offset + w <= 64000,
    ensures
        final(s).wf(),
        final(s)@.pal == old(s)@.pal,
        final(s)@.fb == lined(old(s)@.fb, fb, offset as int, w as int, color),
{
    if color == COL_ALPHA {
        draw_h_line_alpha(s, fb, offset, w, color)
    } else if color == COL_PAGE {
        draw_h_line_page(s, fb, offset, w, color)
    } else {
        draw_h_line_color(s, fb, offset, w, color)
    }
}

fn draw_h_line_alpha(s: &mut State, fb: u8, offset: usize, w: u16, _color: u8)
    requires
        old(s).wf(),
        fb < 4,
        offset + w <= 64000,
    ensures
        final(s).wf(),
        final(s)@.pal == old(s)@.pal,
        final(s)@.fb == lined(old(s)@.fb, fb, offset as int, w as int, COL_ALPHA),
{
    let start = fb as usize * FB_SIZE + offset;
    let mut i: usize = 0;
    while i < w as usize
        invariant
            s.wf(),
            s@.pal == old(s)@.pal,
            fb < 4,
            offset + w <= 64000,
            start == page_start(fb) + offset,
            i <= w,
            forall|k: int|
                0 <= k < 256000 ==> s@.fb[k] == if start <= k < start + i {
                    old(s)@.fb[k] | 8
                } else {
                    old(s)@.fb[k]
                },
        decreases w - i,
    {
        let b = s.fb[start + i];
        s.fb[start + i] = b | 8;
        i += 1;
    }
    assert(s@.fb =~= lined(old(s)@.fb, fb, offset as int, w as int, COL_ALPHA));
}

fn draw_h_line_page(s: &mut State, fb: u8, offset: usize, w: u16, _color: u8)
    requires
        old(s).wf(),
        fb < 4,
        offset + w <= 64000,
    ensures
        final(s).wf(),
        final(s)@.pal == old(s)@.pal,
        final(s)@.fb == lined(old(s)@.fb, fb, offset as int, w as int, COL_PAGE),
{
    if fb != 0 {
        let start = fb as usize * FB_SIZE + offset;
        let mut i: usize = 0;
        while i < w as usize
            invariant
                s.wf(),
                s@.pal == old(s)@.pal,
                0 < fb < 4,
                offset + w <= 64000,
                start == page_start(fb) + offset,
                i <= w,
                forall|k: int|
                    0 <= k < 256000 ==> s@.fb[k] == if start <= k < start + i {
                        old(s)@.fb[k - page_start(fb)]
                    } else {
                        old(s)@.fb[k]
                    },
            decreases w - i,
        {
            let src_color = s.fb[offset + i];
            s.fb[start + i] = src_color;
            i += 1;
        }
    }
    assert(s@.fb =~= lined(old(s)@.fb, fb, offset as int, w as int, COL_PAGE));
}

fn draw_h_line_color(s: &mut State, fb: u8, offset: usize, w: u16, color: u8)
    requires
        old(s).wf(),
        fb < 4,
        offset + w <= 64000,
        color != COL_ALPHA,
        color != COL_PAGE,
    ensures
        final(s).wf(),
        final(s)@.pal == old(s)@.pal,
        final(s)@.fb == lined(old(s)@.fb, fb, offset as int, w as int, color),
{
    let start = fb as usize * FB_SIZE + offset;
    let mut i: usize = 0;
    while i < w as usize
        invariant
            s.wf(),
            s@.pal == old(s)@.pal,
            fb < 4,
            offset + w <= 64000,
            start == page_start(fb) + offset,
            i <= w,
            forall|k: int|
                0 <= k < 256000 ==> s@.fb[k] == if start <= k < start + i {
                    color
                } else {
                    old(s)@.fb[k]
                },
        decreases w - i,
    {
        s.fb[start + i] = color;
        i += 1;
    }
    assert(s@.fb =~= lined(old(s)@.fb, fb, offset as int, w as int, color));
}

/// A glyph whose corner lies too far right or too far down changes nothing.
pub proof fn lemma_glyph_off_screen(
    fbs: Seq<u8>,
    fb: u8,
    x: int,
    y: int,
    c: char,
    color: u8,
    font: Seq<u8>,
)
    requires
        x > 312 || y > 192,
    ensures
        glyphed(fbs, fb, x, y, c, color, font) == fbs,
{
    assert(glyphed(fbs, fb, x, y, c, color, font) =~= fbs);
}

/// Whether the pixel at buffer index `k` lies in the part of a glyph at
/// `(x, y)` of page `fb` that is done once the rows above `j` and the first
/// `i` columns of row `j` are.
pub open spec fn glyph_done(k: int, fb: u8, x: int, y: int, j: int, i: int) -> bool {
    let rel = k - page_start(fb);
    let px = rel % 320 - x;
    let py = rel / 320 - y;
    0 <= rel < 64000 && 0 <= px < 8 && (0 <= py < j || (py == j && px < i))
}

/// Draws the glyph of `c` from the 8x8 font `font` with its top left corner
/// at `(x, y)`, unless it would cross the right or bottom edge.
#[verifier::rlimit(40)]
pub fn draw_char(s: &mut State, fb: u8, x: u16, y: u16, c: char, color: u8, font: &[u8])
    requires
        old(s).wf(),
        fb < 4,
        has_glyph(c),
        font@.len() == 768,
    ensures
        final(s).wf(),
        final(s)@.pal == old(s)@.pal,
        final(s)@.fb == glyphed(old(s)@.fb, fb, x as int, y as int, c, color, font@),
{
    if x <= SCR_W - 8 && y <= SCR_H - 8 {
        let glyph = ((c as u32 - 0x20) * 8) as usize;
        let mut j: u16 = 0;
        while j < 8
            invariant
                s.wf(),
                s@.pal == old(s)@.pal,
                fb < 4,
                has_glyph(c),
                font@.len() == 768,
                x <= 312,
                y <= 192,
                glyph == (c as u32 - 0x20) * 8,
                j <= 8,
                forall|k: int|
                    0 <= k < 256000 ==> s@.fb[k] == if glyph_done(k, fb, x as int, y as int, j as int, 0)
                        && font_bit(
                        font@[glyph + ((k - page_start(fb)) / 320 - y)],
                        ((k - page_start(fb)) % 320 - x) as u8,
                    ) {
                        color
                    } else {
                        old(s)@.fb[k]
                    },
            decreases 8 - j,
        {
            let line = font[glyph + j as usize];
            let mut i: u8 = 0;
            while i < 8
                invariant
                    s.wf(),
                    s@.pal == old(s)@.pal,
                    fb < 4,
                    has_glyph(c),
                    font@.len() == 768,
                    x <= 312,
                    y <= 192,
                    glyph == (c as u32 - 0x20) * 8,
                    j < 8,
                    i <= 8,
                    line == font@[glyph + j],
                    forall|k: int|
                        0 <= k < 256000 ==> s@.fb[k] == if glyph_done(
                            k,
                            fb,
                            x as int,
                            y as int,
                            j as int,
                            i as int,
                        ) && font_bit(
                            font@[glyph + ((k - page_start(fb)) / 320 - y)],
                            ((k - page_start(fb)) % 320 - x) as u8,
                        ) {
                            color
                        } else {
                            old(s)@.fb[k]
                        },
                decreases 8 - i,
            {
                let ghost before = s@.fb;
                let ghost p = page_start(fb) + (y + j) * 320 + (x + i);
                assert((p - page_start(fb)) / 320 == y + j && (p - page_start(fb)) % 320 == x + i);
                if pixel_in_font_line(line, i) {
                    out(s, fb, x + i as u16, y + j, color);
                }
                assert forall|k: int| 0 <= k < 256000 implies s@.fb[k] == if glyph_done(
                    k,
                    fb,
                    x as int,
                    y as int,
                    j as int,
                    i + 1,
                ) && font_bit(
                    font@[glyph + ((k - page_start(fb)) / 320 - y)],
                    ((k - page_start(fb)) % 320 - x) as u8,
                ) {
                    color
                } else {
                    old(s)@.fb[k]
                } by {
                    let rel = k - page_start(fb);
                    assert(rel == 320 * (rel / 320) + rel % 320);
                    if k != p {
                        assert(s@.fb[k] == before[k]);
                        assert(glyph_done(k, fb, x as int, y as int, j as int, i + 1) == glyph_done(
                            k,
                            fb,
                            x as int,
                            y as int,
                            j as int,
                            i as int,
                        ));
                    }
                }
                i += 1;
            }
            j += 1;
        }
    }
    assert(s@.fb =~= glyphed(old(s)@.fb, fb, x as int, y as int, c, color, font@));
}

fn pixel_in_font_line(line: u8, pixel: u8) -> (b: bool)
    requires
        pixel < 8,
    ensures
        b == font_bit(line, pixel),
{
    (line & (1u8 << (7 - pixel))) != 0
}

/// Replaces page `fb` by the 64000 bytes of `data`.
pub fn draw_bitmap(s: &mut State, fb: u8, data: &[u8])
    requires
        old(s).wf(),
        fb < 4,
        data@.len() == 64000,
    ensures
        final(s).wf(),
        final(s)@.pal == old(s)@.pal,
        final(s)@.fb == old(s)@.fb.subrange(0, page_start(fb)) + data@ + old(s)@.fb.subrange(
            page_start(fb) + 64000,
            256000,
        ),
{
    let base = fb as usize * FB_SIZE;
    let mut i: usize = 0;
    while i < FB_SIZE
        invariant
            s.wf(),
            s@.pal == old(s)@.pal,
            fb < 4,
            data@.len() == 64000,
            base == page_start(fb),
            i <= 64000,
            forall|k: int|
                0 <= k < 256000 ==> s@.fb[k] == if base <= k < base + i {
                    data@[k - base]
                } else {
                    old(s)@.fb[k]
                },
        decreases 64000 - i,
    {
        s.fb[base + i] = data[i];
        i += 1;
    }
    assert(s@.fb =~= old(s)@.fb.subrange(0, page_start(fb)) + data@ + old(s)@.fb.subrange(
        page_start(fb) + 64000,
        256000,
    ));
}

fn out(s: &mut State, fb: u8, x: u16, y: u16, color: u8)
    requires
        old(s).wf(),
        fb < 4,
        x < 320,
        y < 200,
    ensures
        final(s).wf(),
        final(s)@.pal == old(s)@.pal,
        final(s)@.fb == old(s)@.fb.update(page_start(fb) + y * 320 + x, color),
{
    s.fb[fb as usize * FB_SIZE + y as usize * 320 + x as usize] = color;
}

fn grab(s: &State, fb: u8, x: u16, y: u16) -> (c: u8)
    requires
        s.wf(),
        fb < 4,
        x < 320,
        y < 200,
    ensures
        c == s@.fb[page_start(fb) + y * 320 + x],
{
    s.fb[fb as usize * FB_SIZE + y as usize * 320 + x as usize]
}

} // verus!
