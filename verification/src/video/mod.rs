//! The virtual graphics card: page selection, palette, text and shapes.

use crate::bytes::{be_u16_at, get_be_u16};
use crate::data::{find_string, string_index, Tables, TablesView};
use crate::mem::{Memory, MemoryView};
use crate::{Error, Game, GameView};
use vstd::prelude::*;

pub mod soft;

verus! {

/// A polygon corner in screen coordinates.
#[derive(Clone, Copy, Debug, PartialEq, Eq, Structural)]
pub struct Vertex {
    pub x: i16,
    pub y: i16,
}

/// A palette entry, eight bits per component.
#[derive(Clone, Copy, Debug, PartialEq, Eq, Structural)]
pub struct RgbColor {
    pub r: u8,
    pub g: u8,
    pub b: u8,
}

/// The corners of a polygon, in the order in which the rasteriser pairs them:
/// at most 70.
pub struct QuadStrip {
    pub(crate) vertices: Vec<Vertex>,
}

impl View for QuadStrip {
    type V = Seq<Vertex>;

    open(crate) spec fn view(&self) -> Seq<Vertex> {
        self.vertices@
    }
}

impl QuadStrip {
    pub open spec fn wf(&self) -> bool {
        self@.len() <= 70
    }

    pub fn new() -> (q: Self)
        ensures
            q@ == Seq::<Vertex>::empty(),
            q.wf(),
    {
        QuadStrip { vertices: Vec::new() }
    }

    pub fn push(&mut self, vertex: Vertex)
        requires
            old(self)@.len() < 70,
        ensures
            final(self)@ == old(self)@.push(vertex),
            final(self).wf(),
    {
        self.vertices.push(vertex);
    }

    pub fn vertices(&self) -> (vs: &[Vertex])
        ensures
            vs@ == self@,
    {
        self.vertices.as_slice()
    }
}

/// Page number that stands for the page on display.
pub const PAGE_FRONT: u8 = 0xFE;

/// Page number that stands for the page drawn behind the scenes.
pub const PAGE_BACK: u8 = 0xFF;

pub struct VideoContext {
    pub rndr: soft::State,
    pub(crate) fb_xlat: [u8; 3],
    pub(crate) dc: u16,
    pub(crate) use_seg2: bool,
    pub(crate) use_ega_pal: bool,
    pub(crate) current_pal_num: Option<u8>,
    pub(crate) needs_pal_fixup: bool,
}

/// What a `VideoContext` holds.
#[verifier::ext_equal]
pub struct VideoView {
    pub rndr: soft::StateView,
    /// The pages in use: the one drawn on, the one on display, the one
    /// behind the scenes.
    pub fb_xlat: Seq<u8>,
    /// Data counter: the cursor in the video segment.
    pub dc: u16,
    /// Whether shapes are read from the second video segment.
    pub use_seg2: bool,
    pub use_ega_pal: bool,
    /// The palette in force, where it is known.
    pub current_pal_num: Option<u8>,
    pub needs_pal_fixup: bool,
}

impl View for VideoContext {
    type V = VideoView;

    open(crate) spec fn view(&self) -> VideoView {
        VideoView {
            rndr: self.rndr@,
            fb_xlat: self.fb_xlat@,
            dc: self.dc,
            use_seg2: self.use_seg2,
            use_ega_pal: self.use_ega_pal,
            current_pal_num: self.current_pal_num,
            needs_pal_fixup: self.needs_pal_fixup,
        }
    }
}

impl VideoView {
    /// Four pages, and three of them named.
    pub open spec fn wf(self) -> bool {
        &&& self.rndr.fb.len() == 4 * 64000
        &&& self.rndr.pal.len() == 16
        &&& self.fb_xlat.len() == 3
        &&& self.fb_xlat[0] < 4
        &&& self.fb_xlat[1] < 4
        &&& self.fb_xlat[2] < 4
    }

    /// The page that page number `n` names.
    pub open spec fn translate(self, n: u8) -> u8 {
        if n <= 3 {
            n
        } else if n == PAGE_FRONT {
            self.fb_xlat[1]
        } else if n == PAGE_BACK {
            self.fb_xlat[2]
        } else {
            0
        }
    }

    /// Page `n` becomes the page drawn on.
    pub open spec fn select(self, n: u8) -> VideoView {
        VideoView { fb_xlat: self.fb_xlat.update(0, self.translate(n)), ..self }
    }

    /// Page `n` is filled with `color`.
    pub open spec fn fill(self, n: u8, color: u8) -> VideoView {
        VideoView {
            rndr: soft::StateView {
                fb: soft::cleared(self.rndr.fb, self.translate(n), color),
                ..self.rndr
            },
            ..self
        }
    }

    /// Page `src` is copied onto page `dst`.
    ///
    /// Without bit 7 in `src`, or with `src` naming the front or the back
    /// page, the copy is plain, and bit 6 of `src` means nothing. With bit 7
    /// the page is `src & 3` and the copy is shifted by `v_scroll` lines, if
    /// that is within `-199..=199`. A page is never copied onto itself.
    pub open spec fn copy(self, src: u8, dst: u8, v_scroll: i16) -> VideoView {
        let to = self.translate(dst);
        let plain = src >= PAGE_FRONT || src & 0x80 == 0;
        let from = if src >= PAGE_FRONT {
            self.translate(src)
        } else if src & 0x80 == 0 {
            self.translate(src & 0xBF)
        } else {
            self.translate(src & 3)
        };
        if from == to {
            self
        } else {
            VideoView {
                rndr: soft::StateView {
                    fb: soft::copied(
                        self.rndr.fb,
                        to,
                        from,
                        if plain {
                            0
                        } else {
                            v_scroll as int
                        },
                    ),
                    ..self.rndr
                },
                ..self
            }
        }
    }

    /// The page on display changes: to the page behind the scenes, which
    /// takes its place, for `PAGE_BACK`; not at all for `PAGE_FRONT`; else
    /// to page `n`.
    pub open spec fn swap(self, n: u8) -> VideoView {
        if n == PAGE_FRONT {
            self
        } else if n == PAGE_BACK {
            VideoView {
                fb_xlat: self.fb_xlat.update(1, self.fb_xlat[2]).update(2, self.fb_xlat[1]),
                ..self
            }
        } else {
            VideoView { fb_xlat: self.fb_xlat.update(1, self.translate(n)), ..self }
        }
    }
}

impl VideoContext {
    pub open spec fn wf(&self) -> bool {
        self@.wf()
    }

    pub fn new() -> (v: Self)
        ensures
            v.wf(),
            v@.rndr.fb == Seq::new(256000, |k: int| 0u8),
            v@.rndr.pal == Seq::new(16, |k: int| RgbColor { r: 0, g: 0, b: 0 }),
            v@.fb_xlat == seq![2u8, 2u8, 1u8],
            v@.dc == 0,
            !v@.use_seg2,
            !v@.use_ega_pal,
            v@.current_pal_num is None,
            v@.needs_pal_fixup,
    {
        let v = VideoContext {
            rndr: soft::State::new(),
            fb_xlat: [2, 2, 1],
            dc: 0,
            use_seg2: false,
            use_ega_pal: false,
            current_pal_num: None,
            needs_pal_fixup: true,
        };
        assert(v@.fb_xlat =~= seq![2u8, 2u8, 1u8]);
        v
    }

    pub fn needs_pal_fixup(&self) -> (b: bool)
        ensures
            b == self@.needs_pal_fixup,
    {
        self.needs_pal_fixup
    }

    pub fn invalidate_pal_num(&mut self)
        ensures
            final(self)@ == (VideoView { current_pal_num: None, ..old(self)@ }),
    {
        self.current_pal_num = None;
    }

    pub fn set_dc(&mut self, new_dc: u16, use_seg2: bool)
        ensures
            final(self)@ == (VideoView { dc: new_dc, use_seg2, ..old(self)@ }),
    {
        self.dc = new_dc;
        self.use_seg2 = use_seg2;
    }

    pub fn set_use_ega_pal(&mut self, on: bool)
        ensures
            final(self)@ == (VideoView { use_ega_pal: on, ..old(self)@ }),
    {
        self.use_ega_pal = on;
    }

    /// The page on display.
    pub fn front_page(&self) -> (fb: u8)
        requires
            self.wf(),
        ensures
            fb == self@.fb_xlat[1],
            fb < 4,
    {
        self.fb_xlat[1]
    }
}

pub fn select_page(v: &mut VideoContext, n: u8)
    requires
        old(v).wf(),
    ensures
        final(v).wf(),
        final(v)@ == old(v)@.select(n),
{
    let n = translate_page(v, n);
    v.fb_xlat[0] = n;
}

pub fn fill_page(v: &mut VideoContext, n: u8, color: u8)
    requires
        old(v).wf(),
    ensures
        final(v).wf(),
        final(v)@ == old(v)@.fill(n, color),
{
    let n = translate_page(v, n);
    soft::clear_fb(&mut v.rndr, n, color)
}

#[verifier::rlimit(40)]
pub fn copy_page(v: &mut VideoContext, src: u8, dst: u8, v_scroll: i16)
    requires
        old(v).wf(),
    ensures
        final(v).wf(),
        final(v)@ == old(v)@.copy(src, dst, v_scroll),
{
    let dst = translate_page(v, dst);
    if src >= 0xFE {
        let src = translate_page(v, src);
        if src != dst {
            soft::copy_fb(&mut v.rndr, dst, src, 0);
        }
    } else if (src & 0x80) == 0 {
        let src = translate_page(v, src & 0xBF);
        if src != dst {
            soft::copy_fb(&mut v.rndr, dst, src, 0);
        }
    } else {
        let src = translate_page(v, src & 3);
        if src != dst && -199 <= v_scroll && v_scroll <= 199 {
            soft::copy_fb(&mut v.rndr, dst, src, v_scroll as i32);
        } else if src != dst {
            assert(v@.rndr.fb =~= soft::copied(v@.rndr.fb, dst, src, v_scroll as int));
        }
    }
}

/// Changes the page on display and says which page that now is.
pub fn swap_pages(v: &mut VideoContext, new_front_fb: u8) -> (front: u8)
    requires
        old(v).wf(),
    ensures
        final(v).wf(),
        final(v)@ == old(v)@.swap(new_front_fb),
        front == final(v)@.fb_xlat[1],
        front < 4,
{
    if new_front_fb != 0xFE {
        if new_front_fb == 0xFF {
            let front = v.fb_xlat[1];
            v.fb_xlat[1] = v.fb_xlat[2];
            v.fb_xlat[2] = front;
        } else {
            v.fb_xlat[1] = translate_page(v, new_front_fb);
        }
    }
    v.fb_xlat[1]
}

/// Swapping the front and the back page twice changes nothing.
pub proof fn lemma_swap_twice(v: VideoView)
    requires
        v.wf(),
    ensures
        v.swap(PAGE_BACK).swap(PAGE_BACK) =~= v,
{
}

fn translate_page(v: &VideoContext, n: u8) -> (fb: u8)
    requires
        v.wf(),
    ensures
        fb == v@.translate(n),
        fb < 4,
{
    if n <= 3 {
        n
    } else if n == 0xFE {
        v.fb_xlat[1]
    } else if n == 0xFF {
        v.fb_xlat[2]
    } else {
        0
    }
}

/// Pixel `k` of a planar image: four planes of 8000 bytes, one bit per
/// pixel and plane, the leftmost pixel in the highest bit. The plane at
/// 24000 gives the colour's bit 3, the plane at 0 its bit 0.
pub open spec fn planar_pixel(mem: Seq<u8>, k: int) -> u8 {
    let n = k / 8;
    let bit = (7 - k % 8) as u8;
    (((mem[24000 + n] >> bit) & 1) << 3) | (((mem[16000 + n] >> bit) & 1) << 2) | (((mem[8000
        + n] >> bit) & 1) << 1) | ((mem[n] >> bit) & 1)
}

/// A planar image as one byte per pixel.
pub open spec fn bitmap_image(mem: Seq<u8>) -> Seq<u8> {
    Seq::new(64000, |k: int| planar_pixel(mem, k))
}

/// Puts the planar image at the start of `mem` on page 0.
#[verifier::rlimit(40)]
pub fn copy_bitmap(v: &mut VideoContext, mem: &[u8])
    requires
        old(v).wf(),
        mem@.len() >= 32000,
    ensures
        final(v).wf(),
        final(v)@ == (VideoView {
            rndr: soft::StateView {
                fb: bitmap_image(mem@) + old(v)@.rndr.fb.subrange(64000, 256000),
                ..old(v)@.rndr
            },
            ..old(v)@
        }),
{
    let mut image: Vec<u8> = Vec::new();
    let mut n: usize = 0;
    while n < 8000
        invariant
            n <= 8000,
            mem@.len() >= 32000,
            image@.len() == 8 * n,
            forall|k: int| 0 <= k < 8 * n ==> image@[k] == planar_pixel(mem@, k),
        decreases 8000 - n,
    {
        let p3 = mem[24000 + n];
        let p2 = mem[16000 + n];
        let p1 = mem[8000 + n];
        let p0 = mem[n];
        let mut j: u8 = 0;
        while j < 8
            invariant
                n < 8000,
                j <= 8,
                mem@.len() >= 32000,
                p3 == mem@[24000 + n],
                p2 == mem@[16000 + n],
                p1 == mem@[8000 + n],
                p0 == mem@[n as int],
                image@.len() == 8 * n + j,
                forall|k: int| 0 <= k < 8 * n + j ==> image@[k] == planar_pixel(mem@, k),
            decreases 8 - j,
        {
            let bit = 7 - j;
            let c = (((p3 >> bit) & 1) << 3) | (((p2 >> bit) & 1) << 2) | (((p1 >> bit) & 1) << 1)
                | ((p0 >> bit) & 1);
            assert((8 * n + j) / 8 == n && (8 * n + j) % 8 == j);
            image.push(c);
            j += 1;
        }
        n += 1;
    }
    assert(image@ =~= bitmap_image(mem@));
    soft::draw_bitmap(&mut v.rndr, 0, image.as_slice());
    assert(v@.rndr.fb =~= bitmap_image(mem@) + old(v)@.rndr.fb.subrange(64000, 256000));
}

/// Number of colours in a palette.
pub const PAL_SIZE: usize = 16;

/// Number of palettes that a palette resource holds.
pub const PAL_COUNT: u8 = 32;

/// A four-bit colour component stretched to eight bits.
pub open spec fn widened(c: u8) -> u8 {
    c | (c << 4)
}

/// The colour of a VGA palette word: red in bits 11 to 8, green in bits 7
/// to 4, blue in bits 3 to 0.
pub open spec fn vga_color(word: u16) -> RgbColor {
    RgbColor {
        r: widened(((word >> 8) & 0x0F) as u8),
        g: widened(((word >> 4) & 0x0F) as u8),
        b: widened((word & 0x0F) as u8),
    }
}

/// The sixteen colours of the EGA.
pub open spec fn ega_table() -> Seq<RgbColor> {
    seq![
        RgbColor { r: 0x00, g: 0x00, b: 0x00 },
        RgbColor { r: 0x00, g: 0x00, b: 0xAA },
        RgbColor { r: 0x00, g: 0xAA, b: 0x00 },
        RgbColor { r: 0x00, g: 0xAA, b: 0xAA },
        RgbColor { r: 0xAA, g: 0x00, b: 0x00 },
        RgbColor { r: 0xAA, g: 0x00, b: 0xAA },
        RgbColor { r: 0xAA, g: 0x55, b: 0x00 },
        RgbColor { r: 0xAA, g: 0xAA, b: 0xAA },
        RgbColor { r: 0x55, g: 0x55, b: 0x55 },
        RgbColor { r: 0x55, g: 0x55, b: 0xFF },
        RgbColor { r: 0x55, g: 0xFF, b: 0x55 },
        RgbColor { r: 0x55, g: 0xFF, b: 0xFF },
        RgbColor { r: 0xFF, g: 0x55, b: 0x55 },
        RgbColor { r: 0xFF, g: 0x55, b: 0xFF },
        RgbColor { r: 0xFF, g: 0xFF, b: 0x55 },
        RgbColor { r: 0xFF, g: 0xFF, b: 0xFF },
    ]
}

/// The colour of an EGA palette word: its top four bits pick one of the
/// sixteen.
pub open spec fn ega_color(word: u16) -> RgbColor {
    ega_table()[((word >> 12) & 0x0F) as int]
}

/// Palette `num` of the palette resource that starts at `base` of the
/// arena: sixteen big-endian words, the EGA palettes 1024 bytes behind
/// the VGA ones.
pub open spec fn palette_at(data: Seq<u8>, base: int, num: u8, ega: bool) -> Seq<RgbColor> {
    Seq::new(
        16,
        |i: int|
            if ega {
                ega_color(be_u16_at(data, base + 1024 + num * 32 + i * 2))
            } else {
                vga_color(be_u16_at(data, base + num * 32 + i * 2))
            },
    )
}

/// Decodes one word of a VGA palette.
pub fn vga_decode(word: u16) -> (c: RgbColor)
    ensures
        c == vga_color(word),
{
    let r = ((word >> 8) & 0x0F) as u8;
    let g = ((word >> 4) & 0x0F) as u8;
    let b = (word & 0x0F) as u8;
    RgbColor { r: r | (r << 4), g: g | (g << 4), b: b | (b << 4) }
}

/// Decodes one word of an EGA palette.
pub fn ega_decode(word: u16) -> (c: RgbColor)
    ensures
        c == ega_color(word),
{
    let table: [RgbColor; 16] = [
        RgbColor { r: 0x00, g: 0x00, b: 0x00 },
        RgbColor { r: 0x00, g: 0x00, b: 0xAA },
        RgbColor { r: 0x00, g: 0xAA, b: 0x00 },
        RgbColor { r: 0x00, g: 0xAA, b: 0xAA },
        RgbColor { r: 0xAA, g: 0x00, b: 0x00 },
        RgbColor { r: 0xAA, g: 0x00, b: 0xAA },
        RgbColor { r: 0xAA, g: 0x55, b: 0x00 },
        RgbColor { r: 0xAA, g: 0xAA, b: 0xAA },
        RgbColor { r: 0x55, g: 0x55, b: 0x55 },
        RgbColor { r: 0x55, g: 0x55, b: 0xFF },
        RgbColor { r: 0x55, g: 0xFF, b: 0x55 },
        RgbColor { r: 0x55, g: 0xFF, b: 0xFF },
        RgbColor { r: 0xFF, g: 0x55, b: 0x55 },
        RgbColor { r: 0xFF, g: 0x55, b: 0xFF },
        RgbColor { r: 0xFF, g: 0xFF, b: 0x55 },
        RgbColor { r: 0xFF, g: 0xFF, b: 0xFF },
    ];
    assert(table@ =~= ega_table());
    let i = (word >> 12) & 0x0F;
    assert(i < 16) by (bit_vector)
        requires
            i == (word >> 12) & 0x0F,
    ;
    table[i as usize]
}

/// The two bytes of a palette word decode to the same RGB565 colour
/// whichever way round they are read, once the word read little-endian has
/// had its bytes swapped.
pub proof fn lemma_palette_byte_order(hi: u8, lo: u8)
    ensures
        soft::rgb565(vga_color(crate::bytes::be_u16(seq![hi, lo]))) == soft::rgb565(
            vga_color(swapped(crate::bytes::le_u16(seq![hi, lo]))),
        ),
{
    let be = crate::bytes::be_u16(seq![hi, lo]);
    let le = crate::bytes::le_u16(seq![hi, lo]);
    assert(be == ((hi as u16) << 8) | (lo as u16));
    assert(le == ((lo as u16) << 8) | (hi as u16));
    assert(swapped(((lo as u16) << 8) | (hi as u16)) == ((hi as u16) << 8) | (lo as u16))
        by (bit_vector);
}

/// A 16-bit word with its two bytes exchanged.
pub open spec fn swapped(w: u16) -> u16 {
    (w << 8) | (w >> 8)
}

fn read_ega_pal(mem: &[u8], base: usize, num: u8) -> (pal: [RgbColor; 16])
    requires
        num < 32,
        base + 2048 <= mem@.len(),
    ensures
        pal@ == palette_at(mem@, base as int, num, true),
{
    // Calling `len` makes known that the length fits a `usize`.
    let _ = mem.len();
    let begin = base + 1024 + num as usize * PAL_SIZE * 2;
    let mut pal = [RgbColor { r: 0, g: 0, b: 0 };16];
    let mut i: usize = 0;
    while i < PAL_SIZE
        invariant
            i <= 16,
            num < 32,
            base + 2048 <= mem@.len(),
            begin == base + 1024 + num * 32,
            mem@.len() <= usize::MAX,
            forall|k: int|
                0 <= k < i ==> pal@[k] == ega_color(be_u16_at(mem@, base + 1024 + num * 32 + k * 2)),
        decreases 16 - i,
    {
        let color = get_be_u16(mem, begin + i * 2);
        pal[i] = ega_decode(color);
        i += 1;
    }
    assert(pal@ =~= palette_at(mem@, base as int, num, true));
    pal
}

fn read_vga_pal(mem: &[u8], base: usize, num: u8) -> (pal: [RgbColor; 16])
    requires
        num < 32,
        base + 1024 <= mem@.len(),
    ensures
        pal@ == palette_at(mem@, base as int, num, false),
{
    // Calling `len` makes known that the length fits a `usize`.
    let _ = mem.len();
    let begin = base + num as usize * PAL_SIZE * 2;
    let mut pal = [RgbColor { r: 0, g: 0, b: 0 };16];
    let mut i: usize = 0;
    while i < PAL_SIZE
        invariant
            i <= 16,
            num < 32,
            base + 1024 <= mem@.len(),
            begin == base + num * 32,
            mem@.len() <= usize::MAX,
            forall|k: int|
                0 <= k < i ==> pal@[k] == vga_color(be_u16_at(mem@, base + num * 32 + k * 2)),
        decreases 16 - i,
    {
        let color = get_be_u16(mem, begin + i * 2);
        pal[i] = vga_decode(color);
        i += 1;
    }
    assert(pal@ =~= palette_at(mem@, base as int, num, false));
    pal
}

/// How deep shapes may be nested in shapes.
pub const MAX_SHAPE_DEPTH: u8 = 32;

/// Where in the arena the video segment in use starts.
pub open spec fn shape_base(v: VideoView, m: MemoryView) -> int {
    if v.use_seg2 {
        m.seg_video2
    } else {
        m.seg_video1
    }
}

/// Whether the next `n` bytes at the data counter can be read: they lie in
/// the arena, and the data counter can move past them.
pub open spec fn shape_avail(v: VideoView, m: MemoryView, n: int) -> bool {
    v.dc + n <= 0xFFFF && shape_base(v, m) + v.dc + n <= m.data.len()
}

/// Byte `k` from the data counter on.
pub open spec fn shape_u8(v: VideoView, m: MemoryView, k: int) -> u8 {
    m.data[shape_base(v, m) + v.dc + k]
}

/// The big-endian word at byte `k` from the data counter on.
pub open spec fn shape_u16(v: VideoView, m: MemoryView, k: int) -> u16 {
    ((shape_u8(v, m, k) as u16) << 8) | (shape_u8(v, m, k + 1) as u16)
}

/// Byte `k` from the data counter on as a length: scaled by `zoom / 64`.
pub open spec fn shape_dim(v: VideoView, m: MemoryView, k: int, zoom: u16) -> int {
    shape_u8(v, m, k) as int * zoom as int / 64
}

pub open spec fn fits_i16(x: int) -> bool {
    -32768 <= x <= 32767
}

/// The video context with the data counter moved on by `n`.
pub open spec fn advanced(v: VideoView, n: int) -> VideoView {
    VideoView { dc: (v.dc + n) as u16, ..v }
}

/// Corner `i` of the polygon whose byte count stands two bytes behind the
/// data counter, placed relative to `(x1, y1)`.
pub open spec fn corner(v: VideoView, m: MemoryView, x1: int, y1: int, zoom: u16, i: int) -> (
    int,
    int,
) {
    (x1 + shape_dim(v, m, 3 + 2 * i, zoom), y1 + shape_dim(v, m, 4 + 2 * i, zoom))
}

/// Whether corner `i` can be held in 16-bit coordinates.
pub open spec fn corner_ok(v: VideoView, m: MemoryView, x1: int, y1: int, zoom: u16, i: int) -> bool {
    &&& shape_dim(v, m, 3 + 2 * i, zoom) <= 32767
    &&& shape_dim(v, m, 4 + 2 * i, zoom) <= 32767
    &&& fits_i16(corner(v, m, x1, y1, zoom, i).0)
    &&& fits_i16(corner(v, m, x1, y1, zoom, i).1)
}

/// The first `n` corners.
pub open spec fn corners(v: VideoView, m: MemoryView, x1: int, y1: int, zoom: u16, n: int) -> Seq<
    Vertex,
> {
    Seq::new(
        n as nat,
        |i: int|
            Vertex {
                x: corner(v, m, x1, y1, zoom, i).0 as i16,
                y: corner(v, m, x1, y1, zoom, i).1 as i16,
            },
    )
}

/// The video context after the polygon at the data counter was drawn around
/// `(x, y)`.
///
/// The polygon starts with the width and height of its bounding box. If the
/// box lies off the screen, nothing more is read. Else follow the number of
/// corners, even and at most 70, and the corners, relative to the box's top
/// left. Four corners in a box no wider than a point and no higher than one
/// line are drawn as the single point `(x, y)`.
pub open spec fn polygon_filled(
    v: VideoView,
    m: MemoryView,
    x: i16,
    y: i16,
    zoom: u16,
    color: u8,
) -> Result<VideoView, Error> {
    let bbw = shape_dim(v, m, 0, zoom);
    let bbh = shape_dim(v, m, 1, zoom);
    let x1 = x - bbw / 2;
    let x2 = x + bbw / 2;
    let y1 = y - bbh / 2;
    let y2 = y + bbh / 2;
    let num = shape_u8(v, m, 2);
    if !shape_avail(v, m, 2) || bbw > 32767 || bbh > 32767 || !fits_i16(x1) || !fits_i16(x2)
        || !fits_i16(y1) || !fits_i16(y2) {
        Err(Error::Corrupt)
    } else if x1 > 319 || x2 < 0 || y1 > 199 || y2 < 0 {
        Ok(advanced(v, 2))
    } else if !shape_avail(v, m, 3) || num % 2 != 0 || num > 70 || !shape_avail(v, m, 3 + 2 * num)
        || exists|i: int| 0 <= i < num && !corner_ok(v, m, x1, y1, zoom, i) {
        Err(Error::Corrupt)
    } else {
        let fb = v.fb_xlat[0];
        let drawn = if num == 4 && bbw == 0 && bbh <= 1 {
            soft::dotted(v.rndr.fb, fb, x as int, y as int, color)
        } else {
            soft::polygon_drawn(v.rndr.fb, fb, corners(v, m, x1, y1, zoom, num as int), color)
        };
        Ok(
            VideoView {
                rndr: soft::StateView { fb: drawn, ..v.rndr },
                dc: (v.dc + 3 + 2 * num) as u16,
                ..v
            },
        )
    }
}

/// The video context after the shape at the data counter was drawn at
/// `(x, y)`.
///
/// A first byte of `0xC0` or more starts a polygon, whose colour is the
/// byte's low six bits if `color` has bit 7 set; the data counter then goes
/// back to just behind that byte. A first byte whose low six bits are 2
/// starts a group of shapes, unless the nesting is already `depth` deep.
/// Any other first byte draws nothing.
pub open spec fn shape_drawn(
    v: VideoView,
    m: MemoryView,
    x: i16,
    y: i16,
    zoom: u16,
    color: u8,
    depth: nat,
) -> Result<VideoView, Error>
    decreases depth, 0nat, 0nat,
{
    if !shape_avail(v, m, 1) {
        Err(Error::Corrupt)
    } else {
        let i = shape_u8(v, m, 0);
        let v1 = advanced(v, 1);
        if i >= 0xC0 {
            let c = if color & 0x80 != 0 {
                i & 0x3F
            } else {
                color
            };
            match polygon_filled(v1, m, x, y, zoom, c) {
                Ok(v2) => Ok(VideoView { dc: v1.dc, ..v2 }),
                Err(e) => Err(e),
            }
        } else if i & 0x3F == 2 {
            if depth == 0 {
                Err(Error::Corrupt)
            } else {
                parts_drawn(v1, m, x, y, zoom, (depth - 1) as nat)
            }
        } else {
            Ok(v1)
        }
    }
}

/// The video context after the group of shapes at the data counter was
/// drawn: two lengths by which the origin lies up and left of `(x, y)`, the
/// number of shapes less one, and the shapes.
pub open spec fn parts_drawn(
    v: VideoView,
    m: MemoryView,
    x: i16,
    y: i16,
    zoom: u16,
    depth: nat,
) -> Result<VideoView, Error>
    decreases depth, 2nat, 0nat,
{
    if !shape_avail(v, m, 3) || shape_dim(v, m, 0, zoom) > 32767 || shape_dim(v, m, 1, zoom)
        > 32767 {
        Err(Error::Corrupt)
    } else {
        children_drawn(
            advanced(v, 3),
            m,
            x.wrapping_sub(shape_dim(v, m, 0, zoom) as i16),
            y.wrapping_sub(shape_dim(v, m, 1, zoom) as i16),
            zoom,
            shape_u8(v, m, 2) as nat + 1,
            depth,
        )
    }
}

/// The video context after `count` shapes of a group were drawn. Each is
/// given by half its offset in the video segment and two lengths by which
/// it lies right of and below the origin; if the offset has bit 15 set, two
/// more bytes follow, of which the first gives the colour.
pub open spec fn children_drawn(
    v: VideoView,
    m: MemoryView,
    x: i16,
    y: i16,
    zoom: u16,
    count: nat,
    depth: nat,
) -> Result<VideoView, Error>
    decreases depth, 1nat, count,
{
    if count == 0 {
        Ok(v)
    } else if !shape_avail(v, m, 4) || shape_dim(v, m, 2, zoom) > 32767 || shape_dim(v, m, 3, zoom)
        > 32767 {
        Err(Error::Corrupt)
    } else {
        let offset = shape_u16(v, m, 0);
        let cx = x.wrapping_add(shape_dim(v, m, 2, zoom) as i16);
        let cy = y.wrapping_add(shape_dim(v, m, 3, zoom) as i16);
        let tinted = offset & 0x8000 != 0;
        if tinted && !shape_avail(v, m, 6) {
            Err(Error::Corrupt)
        } else {
            let color = if tinted {
                shape_u8(v, m, 4) & 0x7F
            } else {
                0xFFu8
            };
            let next = advanced(
                v,
                if tinted {
                    6
                } else {
                    4
                },
            );
            match shape_drawn(VideoView { dc: offset << 1, ..next }, m, cx, cy, zoom, color, depth) {
                Ok(v2) => children_drawn(
                    VideoView { dc: next.dc, ..v2 },
                    m,
                    x,
                    y,
                    zoom,
                    (count - 1) as nat,
                    depth,
                ),
                Err(e) => Err(e),
            }
        }
    }
}

/// Reads the byte at the data counter.
fn fetch_u8(v: &mut VideoContext, m: &Memory) -> (r: Result<u8, Error>)
    requires
        old(v).wf(),
        m.wf(),
    ensures
        final(v).wf(),
        match r {
            Ok(b) => shape_avail(old(v)@, m@, 1) && b == shape_u8(old(v)@, m@, 0) && final(v)@
                == advanced(old(v)@, 1),
            Err(e) => e == Error::Corrupt && !shape_avail(old(v)@, m@, 1) && final(v)@ == old(v)@,
        },
{
    let base = if v.use_seg2 {
        m.seg_video2
    } else {
        m.seg_video1
    };
    let pos = base + v.dc as usize;
    if v.dc == 0xFFFF || pos >= m.data.len() {
        return Err(Error::Corrupt);
    }
    let b = m.data[pos];
    v.dc = v.dc + 1;
    Ok(b)
}

/// Reads the big-endian word at the data counter.
fn fetch_u16(v: &mut VideoContext, m: &Memory) -> (r: Result<u16, Error>)
    requires
        old(v).wf(),
        m.wf(),
    ensures
        final(v).wf(),
        final(v)@ == (VideoView { dc: final(v)@.dc, ..old(v)@ }),
        match r {
            Ok(w) => shape_avail(old(v)@, m@, 2) && w == shape_u16(old(v)@, m@, 0) && final(v)@
                == advanced(old(v)@, 2),
            Err(e) => e == Error::Corrupt && !shape_avail(old(v)@, m@, 2),
        },
{
    let hi = fetch_u8(v, m)? as u16;
    let lo = fetch_u8(v, m)? as u16;
    Ok((hi << 8) | lo)
}

/// Reads the byte at the data counter as a length.
fn fetch_dim(v: &mut VideoContext, m: &Memory, zoom: u16) -> (r: Result<i16, Error>)
    requires
        old(v).wf(),
        m.wf(),
    ensures
        final(v).wf(),
        final(v)@ == (VideoView { dc: final(v)@.dc, ..old(v)@ }),
        match r {
            Ok(d) => shape_avail(old(v)@, m@, 1) && d == shape_dim(old(v)@, m@, 0, zoom)
                && final(v)@ == advanced(old(v)@, 1),
            Err(e) => e == Error::Corrupt && !(shape_avail(old(v)@, m@, 1) && shape_dim(
                old(v)@,
                m@,
                0,
                zoom,
            ) <= 32767),
        },
{
    let b = fetch_u8(v, m)?;
    assert(b as int * zoom as int <= 255 * 65535) by (nonlinear_arith)
        requires
            b <= 255,
            zoom <= 65535,
    ;
    let d = (b as u32) * (zoom as u32) / 64;
    if d > 32767 {
        return Err(Error::Corrupt);
    }
    Ok(d as i16)
}

/// `a + b` if that is a 16-bit value.
fn checked_offset(a: i16, b: i32) -> (r: Option<i16>)
    requires
        -32768 <= b <= 32767,
    ensures
        match r {
            Some(c) => c == a + b,
            None => !fits_i16(a + b),
        },
{
    let c = a as i32 + b;
    if c < -32768 || c > 32767 {
        None
    } else {
        Some(c as i16)
    }
}

#[verifier::rlimit(40)]
fn fill_polygon(v: &mut VideoContext, m: &Memory, x: i16, y: i16, zoom: u16, color: u8) -> (r:
    Result<(), Error>)
    requires
        old(v).wf(),
        m.wf(),
    ensures
        final(v).wf(),
        match r {
            Ok(()) => polygon_filled(old(v)@, m@, x, y, zoom, color) == Ok::<VideoView, Error>(
                final(v)@,
            ),
            Err(e) => polygon_filled(old(v)@, m@, x, y, zoom, color) == Err::<VideoView, Error>(e),
        },
{
    let bbw = fetch_dim(v, m, zoom)?;
    let bbh = fetch_dim(v, m, zoom)?;
    let half_w = (bbw as u16 / 2) as i32;
    let half_h = (bbh as u16 / 2) as i32;
    let Some(x1) = checked_offset(x, -half_w) else {
        return Err(Error::Corrupt);
    };
    let Some(x2) = checked_offset(x, half_w) else {
        return Err(Error::Corrupt);
    };
    let Some(y1) = checked_offset(y, -half_h) else {
        return Err(Error::Corrupt);
    };
    let Some(y2) = checked_offset(y, half_h) else {
        return Err(Error::Corrupt);
    };
    if x1 > 319 || x2 < 0 || y1 > 199 || y2 < 0 {
        return Ok(());
    }
    let num = fetch_u8(v, m)?;
    if (num & 1) != 0 || num > 70 {
        assert(num & 1 != 0 ==> num % 2 != 0) by (bit_vector);
        return Err(Error::Corrupt);
    }
    assert(num % 2 == 0) by (bit_vector)
        requires
            num & 1 == 0,
    ;
    let mut qs = QuadStrip::new();
    let mut i: u8 = 0;
    assert((!shape_avail(old(v)@, m@, 3 + 2 * num) || exists|k: int|
        0 <= k < num && !corner_ok(old(v)@, m@, x1 as int, y1 as int, zoom, k)) ==> polygon_filled(
        old(v)@,
        m@,
        x,
        y,
        zoom,
        color,
    ) == Err::<VideoView, Error>(Error::Corrupt));
    while i < num
        invariant
            v.wf(),
            m.wf(),
            i <= num <= 70,
            (!shape_avail(old(v)@, m@, 3 + 2 * num) || exists|k: int|
                0 <= k < num && !corner_ok(old(v)@, m@, x1 as int, y1 as int, zoom, k))
                ==> polygon_filled(old(v)@, m@, x, y, zoom, color) == Err::<VideoView, Error>(
                Error::Corrupt,
            ),
            v@ == advanced(old(v)@, 3 + 2 * i),
            shape_avail(old(v)@, m@, 3 + 2 * i),
            qs@ == corners(old(v)@, m@, x1 as int, y1 as int, zoom, i as int),
            forall|k: int| 0 <= k < i ==> corner_ok(old(v)@, m@, x1 as int, y1 as int, zoom, k),
        decreases num - i,
    {
        let dx = match fetch_dim(v, m, zoom) {
            Ok(d) => d,
            Err(e) => {
                assert(!corner_ok(old(v)@, m@, x1 as int, y1 as int, zoom, i as int) || !shape_avail(
                    old(v)@,
                    m@,
                    3 + 2 * num,
                ));
                return Err(e);
            },
        };
        let dy = match fetch_dim(v, m, zoom) {
            Ok(d) => d,
            Err(e) => {
                assert(!corner_ok(old(v)@, m@, x1 as int, y1 as int, zoom, i as int) || !shape_avail(
                    old(v)@,
                    m@,
                    3 + 2 * num,
                ));
                return Err(e);
            },
        };
        let Some(vx) = checked_offset(x1, dx as i32) else {
            assert(!corner_ok(old(v)@, m@, x1 as int, y1 as int, zoom, i as int));
            return Err(Error::Corrupt);
        };
        let Some(vy) = checked_offset(y1, dy as i32) else {
            assert(!corner_ok(old(v)@, m@, x1 as int, y1 as int, zoom, i as int));
            return Err(Error::Corrupt);
        };
        assert(corner_ok(old(v)@, m@, x1 as int, y1 as int, zoom, i as int));
        qs.push(Vertex { x: vx, y: vy });
        assert(qs@ =~= corners(old(v)@, m@, x1 as int, y1 as int, zoom, i + 1));
        i += 1;
    }
    let fb = v.fb_xlat[0];
    if num == 4 && bbw == 0 && bbh <= 1 {
        soft::draw_point(&mut v.rndr, fb, x as u16, y as u16, color);
    } else {
        soft::draw_polygon(&mut v.rndr, fb, &qs, color);
    }
    Ok(())
}

/// Draws the shape at the data counter, groups no deeper than `depth`.
#[verifier::rlimit(40)]
fn draw_shape_at(
    v: &mut VideoContext,
    m: &Memory,
    x: i16,
    y: i16,
    zoom: u16,
    color: u8,
    depth: u8,
) -> (r: Result<(), Error>)
    requires
        old(v).wf(),
        m.wf(),
    ensures
        final(v).wf(),
        match r {
            Ok(()) => shape_drawn(old(v)@, m@, x, y, zoom, color, depth as nat) == Ok::<
                VideoView,
                Error,
            >(final(v)@),
            Err(e) => shape_drawn(old(v)@, m@, x, y, zoom, color, depth as nat) == Err::<
                VideoView,
                Error,
            >(e),
        },
    decreases depth, 0nat, 0nat,
{
    let i = fetch_u8(v, m)?;
    if i >= 0xC0 {
        let color = if (color & 0x80) != 0 {
            i & 0x3F
        } else {
            color
        };
        let old_dc = v.dc;
        fill_polygon(v, m, x, y, zoom, color)?;
        v.dc = old_dc;
        Ok(())
    } else {
        let i = i & 0x3F;
        if i == 2 {
            if depth == 0 {
                return Err(Error::Corrupt);
            }
            draw_shape_parts(v, m, x, y, zoom, depth - 1)
        } else {
            Ok(())
        }
    }
}

fn draw_shape_parts(v: &mut VideoContext, m: &Memory, x: i16, y: i16, zoom: u16, depth: u8) -> (r:
    Result<(), Error>)
    requires
        old(v).wf(),
        m.wf(),
    ensures
        final(v).wf(),
        match r {
            Ok(()) => parts_drawn(old(v)@, m@, x, y, zoom, depth as nat) == Ok::<VideoView, Error>(
                final(v)@,
            ),
            Err(e) => parts_drawn(old(v)@, m@, x, y, zoom, depth as nat) == Err::<VideoView, Error>(
                e,
            ),
        },
    decreases depth, 2nat, 0nat,
{
    let x = x.wrapping_sub(fetch_dim(v, m, zoom)?);
    let y = y.wrapping_sub(fetch_dim(v, m, zoom)?);
    let n = fetch_u8(v, m)?;
    draw_children(v, m, x, y, zoom, n as u16 + 1, depth)
}

#[verifier::rlimit(40)]
fn draw_children(
    v: &mut VideoContext,
    m: &Memory,
    x: i16,
    y: i16,
    zoom: u16,
    count: u16,
    depth: u8,
) -> (r: Result<(), Error>)
    requires
        old(v).wf(),
        m.wf(),
    ensures
        final(v).wf(),
        match r {
            Ok(()) => children_drawn(old(v)@, m@, x, y, zoom, count as nat, depth as nat) == Ok::<
                VideoView,
                Error,
            >(final(v)@),
            Err(e) => children_drawn(old(v)@, m@, x, y, zoom, count as nat, depth as nat) == Err::<
                VideoView,
                Error,
            >(e),
        },
    decreases depth, 1nat, count,
{
    if count == 0 {
        return Ok(());
    }
    let offset = fetch_u16(v, m)?;
    let cx = x.wrapping_add(fetch_dim(v, m, zoom)?);
    let cy = y.wrapping_add(fetch_dim(v, m, zoom)?);
    let color = if (offset & 0x8000) != 0 {
        let hi = fetch_u8(v, m)?;
        let _lo = fetch_u8(v, m)?;
        hi & 0x7F
    } else {
        0xFF
    };
    let old_offset = v.dc;
    v.dc = offset << 1;
    draw_shape_at(v, m, cx, cy, zoom, color, depth)?;
    v.dc = old_offset;
    draw_children(v, m, x, y, zoom, count - 1, depth)
}

/// The machine after the shape at the data counter was drawn.
pub open spec fn with_shape(g: GameView, x: i16, y: i16, zoom: u16, color: u8) -> Result<
    GameView,
    Error,
> {
    match shape_drawn(g.video, g.mem, x, y, zoom, color, MAX_SHAPE_DEPTH as nat) {
        Ok(v) => Ok(GameView { video: v, ..g }),
        Err(e) => Err(e),
    }
}

/// Draws the shape at the data counter of the video segment in use.
pub fn draw_shape(g: &mut Game, x: i16, y: i16, zoom: u16, color: u8) -> (r: Result<(), Error>)
    requires
        old(g).wf(),
    ensures
        final(g).wf(),
        match r {
            Ok(()) => with_shape(old(g)@, x, y, zoom, color) == Ok::<GameView, Error>(final(g)@),
            Err(e) => with_shape(old(g)@, x, y, zoom, color) == Err::<GameView, Error>(e),
        },
{
    draw_shape_at(&mut g.video, &g.mem, x, y, zoom, color, MAX_SHAPE_DEPTH)
}

/// The machine with palette `num` in force, unless it is already, or is no
/// palette number.
pub open spec fn with_palette(g: GameView, num: u8) -> GameView {
    if num < PAL_COUNT && g.video.current_pal_num != Some(num) {
        GameView {
            video: VideoView {
                rndr: soft::StateView {
                    pal: palette_at(g.mem.data, g.mem.seg_video_pal, num, g.video.use_ega_pal),
                    ..g.video.rndr
                },
                current_pal_num: Some(num),
                ..g.video
            },
            ..g
        }
    } else {
        g
    }
}

/// Puts palette `num` of the part's palette resource in force.
#[verifier::rlimit(40)]
pub fn load_pal_mem(g: &mut Game, num: u8)
    requires
        old(g).wf(),
    ensures
        final(g).wf(),
        final(g)@ == with_palette(old(g)@, num),
{
    let known = match g.video.current_pal_num {
        Some(n) => n == num,
        None => false,
    };
    if num < 32 && !known {
        let pal = if g.video.use_ega_pal {
            read_ega_pal(g.mem.data.as_slice(), g.mem.seg_video_pal, num)
        } else {
            read_vga_pal(g.mem.data.as_slice(), g.mem.seg_video_pal, num)
        };
        g.video.rndr.set_pal(pal);
        g.video.current_pal_num = Some(num);
    }
}

/// The pages after the characters of `text` from the `k`th on were drawn on
/// page `fb`, the next one in text column `col` on pixel line `row`. A
/// column is eight pixels wide; a line feed leads to column `left`, eight
/// lines further down; a character without a glyph leaves a gap.
pub open spec fn text_drawn(
    fbs: Seq<u8>,
    fb: u8,
    text: Seq<char>,
    k: int,
    left: int,
    col: int,
    row: int,
    color: u8,
    font: Seq<u8>,
) -> Seq<u8>
    decreases text.len() - k,
{
    if k < 0 || k >= text.len() {
        fbs
    } else if text[k] == '\n' {
        text_drawn(fbs, fb, text, k + 1, left, left, row + 8, color, font)
    } else {
        let drawn = if soft::has_glyph(text[k]) {
            soft::glyphed(fbs, fb, col * 8, row, text[k], color, font)
        } else {
            fbs
        };
        text_drawn(drawn, fb, text, k + 1, left, col + 1, row, color, font)
    }
}

/// The video context after the text called `str_id` was drawn on the page
/// drawn on, from text column `xi` and pixel line `ypos`. A text that the
/// tables lack draws nothing.
pub open spec fn with_string(
    v: VideoView,
    t: TablesView,
    xi: u16,
    ypos: u16,
    str_id: u16,
    color: u8,
) -> VideoView {
    match string_index(t.strings, str_id) {
        None => v,
        Some(i) => VideoView {
            rndr: soft::StateView {
                fb: text_drawn(
                    v.rndr.fb,
                    v.fb_xlat[0],
                    t.strings[i].text,
                    0,
                    xi as int,
                    xi as int,
                    ypos as int,
                    color,
                    t.font,
                ),
                ..v.rndr
            },
            ..v
        },
    }
}

/// The smaller of `a` and `cap`.
pub open spec fn at_most(a: int, cap: int) -> int {
    if a < cap {
        a
    } else {
        cap
    }
}

#[verifier::rlimit(40)]
pub fn draw_string(
    v: &mut VideoContext,
    tables: &Tables,
    xi: u16,
    ypos: u16,
    str_id: u16,
    color: u8,
)
    requires
        old(v).wf(),
        tables@.wf(),
    ensures
        final(v).wf(),
        final(v)@ == with_string(old(v)@, tables@, xi, ypos, str_id, color),
{
    let Some(index) = find_string(tables.strings.as_slice(), str_id) else {
        return ;
    };
    let text = &tables.strings[index].text;
    let fb = v.fb_xlat[0];
    let left: u16 = if xi < 40 {
        xi
    } else {
        40
    };
    let mut col: u16 = left;
    let mut row: u16 = if ypos < 200 {
        ypos
    } else {
        200
    };
    let ghost mut gcol: int = xi as int;
    let ghost mut grow: int = ypos as int;
    let mut k: usize = 0;
    while k < text.len()
        invariant
            v.wf(),
            tables@.wf(),
            tables.font@ == tables@.font,
            fb < 4,
            fb == old(v)@.fb_xlat[0],
            k <= text@.len(),
            left == at_most(xi as int, 40),
            col == at_most(gcol, 40),
            row == at_most(grow, 200),
            v@ == (VideoView {
                rndr: soft::StateView { fb: v@.rndr.fb, ..old(v)@.rndr },
                ..old(v)@
            }),
            text_drawn(v@.rndr.fb, fb, text@, k as int, xi as int, gcol, grow, color, tables@.font)
                == text_drawn(
                old(v)@.rndr.fb,
                fb,
                text@,
                0,
                xi as int,
                xi as int,
                ypos as int,
                color,
                tables@.font,
            ),
        decreases text@.len() - k,
    {
        let c = text[k];
        if c == '\n' {
            col = left;
            row = if row < 192 {
                row + 8
            } else {
                200
            };
            proof {
                gcol = xi as int;
                grow = grow + 8;
            }
        } else {
            if 0x20 <= c as u32 && (c as u32) < 0x80 {
                proof {
                    if gcol >= 40 {
                        soft::lemma_glyph_off_screen(
                            v@.rndr.fb,
                            fb,
                            gcol * 8,
                            grow,
                            c,
                            color,
                            tables@.font,
                        );
                        soft::lemma_glyph_off_screen(
                            v@.rndr.fb,
                            fb,
                            col * 8,
                            row as int,
                            c,
                            color,
                            tables@.font,
                        );
                    } else if grow >= 200 {
                        soft::lemma_glyph_off_screen(
                            v@.rndr.fb,
                            fb,
                            gcol * 8,
                            grow,
                            c,
                            color,
                            tables@.font,
                        );
                        soft::lemma_glyph_off_screen(
                            v@.rndr.fb,
                            fb,
                            col * 8,
                            row as int,
                            c,
                            color,
                            tables@.font,
                        );
                    }
                }
                soft::draw_char(&mut v.rndr, fb, col * 8, row, c, color, tables.font.as_slice());
            }
            col = if col < 40 {
                col + 1
            } else {
                40
            };
            proof {
                gcol = gcol + 1;
            }
        }
        k += 1;
    }
}

} // verus!
