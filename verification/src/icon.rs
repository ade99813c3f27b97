//! The tray icon glyphs as pixels: a 32x32 top-down BGRA buffer, the
//! primitives that paint it, and the window glyph with its warning dot.
//! Turning a buffer into a system icon is the caller's part.

use vstd::prelude::*;

verus! {

/// Width and height of the icon, in pixels.
pub const ICON_SIZE: i32 = 32;

/// Bytes in one icon buffer: four per pixel.
pub const PIXMAP_BYTES: usize = 4096;

/// Accent blue #0078D4, as blue, green, red.
pub const ACCENT: [u8; 3] = [0xD4, 0x78, 0x00];
/// The darker accent of the title bar.
pub const TITLEBAR: [u8; 3] = [0x9E, 0x5A, 0x00];
/// The light grey of the window content.
pub const CONTENT: [u8; 3] = [0xF3, 0xF3, 0xF3];
/// Alert red #E81123, as blue, green, red.
pub const ALERT: [u8; 3] = [0x23, 0x11, 0xE8];

/// A top-down BGRA pixel buffer of `ICON_SIZE` x `ICON_SIZE`.
pub struct Pixmap {
    data: Vec<u8>,
}

/// Byte `i` of a buffer in which the pixels for which `inside` holds are
/// painted `bgr` and opaque, and every other byte is `d[i]`.
pub open spec fn painted_byte(d: Seq<u8>, i: int, inside: spec_fn(int, int) -> bool, bgr: [u8; 3]) -> u8 {
    let p = i / 4;
    if inside(p % 32, p / 32) {
        if i % 4 < 3 {
            bgr@[i % 4]
        } else {
            0xFFu8
        }
    } else {
        d[i]
    }
}

/// `d` with every pixel for which `inside` holds painted `bgr`, opaque.
pub open spec fn painted(d: Seq<u8>, inside: spec_fn(int, int) -> bool, bgr: [u8; 3]) -> Seq<u8> {
    Seq::new(d.len(), |i: int| painted_byte(d, i, inside, bgr))
}

/// The pixels of the half-open rectangle `[x0, x1) x [y0, y1)`.
pub open spec fn in_rect(x0: int, y0: int, x1: int, y1: int) -> spec_fn(int, int) -> bool {
    |x: int, y: int| x0 <= x < x1 && y0 <= y < y1
}

/// The pixels of the disc of radius `r` around `(cx, cy)`; none for a
/// negative radius.
pub open spec fn in_disc(cx: int, cy: int, r: int) -> spec_fn(int, int) -> bool {
    |x: int, y: int| r >= 0 && (x - cx) * (x - cx) + (y - cy) * (y - cy) <= r * r
}

/// `d` with the pixel `(x, y)` set to `bgr` and alpha `a` when it is on the
/// icon; unchanged otherwise.
pub open spec fn with_pixel(d: Seq<u8>, x: int, y: int, bgr: [u8; 3], a: u8) -> Seq<u8> {
    if 0 <= x < 32 && 0 <= y < 32 {
        Seq::new(
            d.len(),
            |i: int|
                if i / 4 == y * 32 + x {
                    if i % 4 < 3 {
                        bgr@[i % 4]
                    } else {
                        a
                    }
                } else {
                    d[i]
                },
        )
    } else {
        d
    }
}

impl View for Pixmap {
    type V = Seq<u8>;

    closed spec fn view(&self) -> Seq<u8> {
        self.data@
    }
}

/// The window glyph: accent frame `[4,28) x [5,27)`, darker title bar
/// `[4,28) x [5,11)`, light content `[6,26) x [12,25)`, and the four outer
/// corner pixels cleared to transparent.
pub open spec fn base_glyph() -> Seq<u8> {
    let frame = painted(Seq::new(4096, |i: int| 0u8), in_rect(4, 5, 28, 27), ACCENT);
    let title = painted(frame, in_rect(4, 5, 28, 11), TITLEBAR);
    let content = painted(title, in_rect(6, 12, 26, 25), CONTENT);
    let a = with_pixel(content, 4, 5, [0u8, 0u8, 0u8], 0);
    let b = with_pixel(a, 27, 5, [0u8, 0u8, 0u8], 0);
    let c = with_pixel(b, 4, 26, [0u8, 0u8, 0u8], 0);
    with_pixel(c, 27, 26, [0u8, 0u8, 0u8], 0)
}

/// The warning glyph: the window glyph with a red dot of radius 6 at
/// `(24, 24)`.
pub open spec fn warning_glyph() -> Seq<u8> {
    painted(base_glyph(), in_disc(24, 24, 6), ALERT)
}

impl Pixmap {
    /// A fully transparent buffer.
    pub fn transparent() -> (p: Self)
        ensures
            p@ == Seq::new(4096, |i: int| 0u8),
    {
        let data: Vec<u8> = vec![0u8; PIXMAP_BYTES];
        assert(data@ =~= Seq::new(4096, |i: int| 0u8));
        Pixmap { data }
    }

    /// The buffer's bytes, top row first, four per pixel.
    pub fn bytes(&self) -> (b: &[u8])
        ensures
            b@ == self@,
    {
        self.data.as_slice()
    }

    /// Set one pixel; a pixel off the icon is ignored.
    pub fn set(&mut self, x: i32, y: i32, bgr: [u8; 3], a: u8)
        requires
            old(self)@.len() == 4096,
        ensures
            final(self)@ == with_pixel(old(self)@, x as int, y as int, bgr, a),
    {
        if x < 0 || y < 0 || x >= ICON_SIZE || y >= ICON_SIZE {
            return;
        }
        let i = ((y as usize) * 32 + (x as usize)) * 4;
        let ghost before = self.data@;
        self.data.set(i, bgr[0]);
        self.data.set(i + 1, bgr[1]);
        self.data.set(i + 2, bgr[2]);
        self.data.set(i + 3, a);
        assert(self.data@ =~= with_pixel(before, x as int, y as int, bgr, a));
    }

    /// Paint every pixel of `[x0, x1) x [y0, y1)` that is on the icon.
    pub fn fill_rect(&mut self, x0: i32, y0: i32, x1: i32, y1: i32, bgr: [u8; 3])
        requires
            old(self)@.len() == 4096,
        ensures
            final(self)@ == painted(old(self)@, in_rect(x0 as int, y0 as int, x1 as int, y1 as int), bgr),
    {
        let ghost inside = in_rect(x0 as int, y0 as int, x1 as int, y1 as int);
        let ghost before = self.data@;
        let mut p: usize = 0;
        while p < 1024
            invariant
                p <= 1024,
                before.len() == 4096,
                inside == in_rect(x0 as int, y0 as int, x1 as int, y1 as int),
                self.data@ == Seq::new(
                    4096,
                    |i: int| if i / 4 < p { painted_byte(before, i, inside, bgr) } else { before[i] },
                ),
            decreases 1024 - p,
        {
            let x = (p % 32) as i32;
            let y = (p / 32) as i32;
            if x0 <= x && x < x1 && y0 <= y && y < y1 {
                self.paint_pixel(p, bgr);
            }
            proof {
                assert(self.data@ =~= Seq::new(
                    4096,
                    |i: int| if i / 4 < p + 1 { painted_byte(before, i, inside, bgr) } else { before[i] },
                ));
            }
            p = p + 1;
        }
        assert(self.data@ =~= painted(before, inside, bgr));
    }

    /// Paint every pixel of the disc of radius `r` around `(cx, cy)` that is
    /// on the icon; a negative radius paints nothing.
    pub fn fill_circle(&mut self, cx: i32, cy: i32, r: i32, bgr: [u8; 3])
        requires
            old(self)@.len() == 4096,
        ensures
            final(self)@ == painted(old(self)@, in_disc(cx as int, cy as int, r as int), bgr),
    {
        let ghost inside = in_disc(cx as int, cy as int, r as int);
        let ghost before = self.data@;
        let mut p: usize = 0;
        while p < 1024
            invariant
                p <= 1024,
                before.len() == 4096,
                inside == in_disc(cx as int, cy as int, r as int),
                self.data@ == Seq::new(
                    4096,
                    |i: int| if i / 4 < p { painted_byte(before, i, inside, bgr) } else { before[i] },
                ),
            decreases 1024 - p,
        {
            let x = (p % 32) as i64;
            let y = (p / 32) as i64;
            let dx = x - cx as i64;
            let dy = y - cy as i64;
            let adx: u64 = if dx >= 0 {
                dx as u64
            } else {
                (-dx) as u64
            };
            let ady: u64 = if dy >= 0 {
                dy as u64
            } else {
                (-dy) as u64
            };
            assert(adx * adx <= 0x4000_0020_0000_0400) by (nonlinear_arith)
                requires
                    adx <= 0x8000_0020,
            ;
            assert(ady * ady <= 0x4000_0020_0000_0400) by (nonlinear_arith)
                requires
                    ady <= 0x8000_0020,
            ;
            let d2: u64 = adx * adx + ady * ady;
            let hit = if r < 0 {
                false
            } else {
                let rr = r as u64;
                assert(rr * rr <= 0x4000_0000_0000_0000) by (nonlinear_arith)
                    requires
                        rr <= 0x8000_0000,
                ;
                d2 <= rr * rr
            };
            proof {
                assert(adx * adx == dx * dx) by (nonlinear_arith)
                    requires
                        adx == dx || adx == -dx,
                ;
                assert(ady * ady == dy * dy) by (nonlinear_arith)
                    requires
                        ady == dy || ady == -dy,
                ;
                assert(hit == inside(p as int % 32, p as int / 32));
            }
            if hit {
                self.paint_pixel(p, bgr);
            }
            proof {
                assert(self.data@ =~= Seq::new(
                    4096,
                    |i: int| if i / 4 < p + 1 { painted_byte(before, i, inside, bgr) } else { before[i] },
                ));
            }
            p = p + 1;
        }
        assert(self.data@ =~= painted(before, inside, bgr));
    }

    /// Paint pixel number `p` (row-major) opaque `bgr`.
    fn paint_pixel(&mut self, p: usize, bgr: [u8; 3])
        requires
            p < 1024,
            old(self)@.len() == 4096,
        ensures
            final(self)@ == Seq::new(
                4096,
                |i: int|
                    if i / 4 == p {
                        if i % 4 < 3 {
                            bgr@[i % 4]
                        } else {
                            0xFFu8
                        }
                    } else {
                        old(self)@[i]
                    },
            ),
    {
        let i = p * 4;
        let ghost before = self.data@;
        self.data.set(i, bgr[0]);
        self.data.set(i + 1, bgr[1]);
        self.data.set(i + 2, bgr[2]);
        self.data.set(i + 3, 0xFF);
        assert(self.data@ =~= Seq::new(
            4096,
            |j: int|
                if j / 4 == p {
                    if j % 4 < 3 {
                        bgr@[j % 4]
                    } else {
                        0xFFu8
                    }
                } else {
                    before[j]
                },
        ));
    }
}

/// The window glyph of the normal state.
pub fn base_pixmap() -> (p: Pixmap)
    ensures
        p@ == base_glyph(),
{
    let mut p = Pixmap::transparent();
    p.fill_rect(4, 5, 28, 27, ACCENT);
    p.fill_rect(4, 5, 28, 11, TITLEBAR);
    p.fill_rect(6, 12, 26, 25, CONTENT);
    p.set(4, 5, [0, 0, 0], 0);
    p.set(27, 5, [0, 0, 0], 0);
    p.set(4, 26, [0, 0, 0], 0);
    p.set(27, 26, [0, 0, 0], 0);
    p
}

/// The warning glyph: the window with a red dot at the bottom right.
pub fn warning_pixmap() -> (p: Pixmap)
    ensures
        p@ == warning_glyph(),
{
    let mut p = base_pixmap();
    p.fill_circle(24, 24, 6, ALERT);
    p
}

} // verus!
