//! The 300x300 board canvas and its stateless pixel operations: filling
//! rectangles, blitting mark sprites, alpha-blending strike overlays and
//! drawing the selection outline.
//!
//! A canvas is a row-major RGB byte buffer: the byte for channel `c` of the
//! pixel at `(x, y)` sits at index `(y * 300 + x) * 3 + c`.

use vstd::prelude::*;

verus! {

/// Channel index of buffer position `i`.
pub open spec fn pix_c(i: int) -> int {
    i % 3
}

/// Column of the pixel at buffer position `i`.
pub open spec fn pix_x(i: int) -> int {
    (i / 3) % 300
}

/// Row of the pixel at buffer position `i`.
pub open spec fn pix_y(i: int) -> int {
    i / 900
}

/// Buffer position of channel `c` of the pixel at `(x, y)`.
pub open spec fn pix_index(x: int, y: int, c: int) -> int {
    (y * 300 + x) * 3 + c
}

/// Encoding a coordinate triple and decoding the resulting position are
/// mutually inverse.
proof fn lemma_pix_decode(x: int, y: int, c: int)
    requires
        0 <= x < 300,
        0 <= y < 300,
        0 <= c < 3,
    ensures
        0 <= pix_index(x, y, c) < 270000,
        pix_x(pix_index(x, y, c)) == x,
        pix_y(pix_index(x, y, c)) == y,
        pix_c(pix_index(x, y, c)) == c,
{
    let i = pix_index(x, y, c);
    assert(i == 900 * y + 3 * x + c);
    assert(i % 3 == c && i / 3 == 300 * y + x) by (nonlinear_arith)
        requires
            i == 900 * y + 3 * x + c,
            0 <= c < 3,
            0 <= x,
            0 <= y,
    ;
    assert((300 * y + x) % 300 == x && i / 900 == y) by (nonlinear_arith)
        requires
            i == 900 * y + 3 * x + c,
            0 <= c < 3,
            0 <= x < 300,
            0 <= y,
    ;
}

proof fn lemma_pix_encode(i: int)
    requires
        0 <= i < 270000,
    ensures
        0 <= pix_x(i) < 300,
        0 <= pix_y(i) < 300,
        0 <= pix_c(i) < 3,
        pix_index(pix_x(i), pix_y(i), pix_c(i)) == i,
{
    assert(0 <= pix_x(i) < 300 && 0 <= pix_y(i) < 300 && 0 <= pix_c(i) < 3
        && (pix_y(i) * 300 + pix_x(i)) * 3 + pix_c(i) == i) by (nonlinear_arith)
        requires
            0 <= i < 270000,
    ;
}

/// The background colour of the empty board, channel by channel.
pub open spec fn background_channel(c: int) -> u8 {
    if c == 0 {
        42
    } else if c == 1 {
        44
    } else {
        47
    }
}

/// The grey of the 4px dividers between cells.
pub open spec fn divider_grey() -> u8 {
    232
}

/// The red used for the selection outline, channel by channel.
pub open spec fn outline_channel(c: int) -> u8 {
    if c == 0 {
        196
    } else {
        57
    }
}

/// `(x, y)` lies on one of the four 4px divider bands of the empty board.
pub open spec fn on_divider(x: int, y: int) -> bool {
    (98 <= x < 102) || (198 <= x < 202) || (98 <= y < 102) || (198 <= y < 202)
}

/// The pixels of the empty board: grey dividers over the dark background.
pub open spec fn template_pixels() -> Seq<u8> {
    Seq::new(270000, |i: int|
        if on_divider(pix_x(i), pix_y(i)) {
            divider_grey()
        } else {
            background_channel(pix_c(i))
        })
}

/// `canvas` with the axis-aligned rectangle of width `w` and height `h` at
/// `(x0, y0)` filled with the colour `col`.
pub open spec fn rect_filled(canvas: Seq<u8>, x0: int, y0: int, w: int, h: int, col: (u8, u8, u8)) -> Seq<u8> {
    Seq::new(270000, |i: int|
        if x0 <= pix_x(i) < x0 + w && y0 <= pix_y(i) < y0 + h {
            tuple_channel(col, pix_c(i))
        } else {
            canvas[i]
        })
}

pub open spec fn tuple_channel(col: (u8, u8, u8), c: int) -> u8 {
    if c == 0 {
        col.0
    } else if c == 1 {
        col.1
    } else {
        col.2
    }
}

/// `(x, y)` lies inside the 80x80 sprite area of the given cell: each cell
/// is 100x100 and its sprite is inset by 10px on every side.
pub open spec fn mark_region(cell: int, x: int, y: int) -> bool {
    let ox = (cell % 3) * 100;
    let oy = (cell / 3) * 100;
    ox + 10 <= x < ox + 90 && oy + 10 <= y < oy + 90
}

/// Position inside an 80x80 RGB sprite that lands on canvas pixel `(x, y)`
/// when the sprite is blitted into the given cell.
pub open spec fn sprite_index(cell: int, x: int, y: int, c: int) -> int {
    let ox = (cell % 3) * 100;
    let oy = (cell / 3) * 100;
    ((y - oy - 10) * 80 + (x - ox - 10)) * 3 + c
}

/// `canvas` with the 80x80 sprite copied, pixel for pixel, into `cell`.
pub open spec fn mark_blitted(canvas: Seq<u8>, cell: int, sprite: Seq<u8>) -> Seq<u8> {
    Seq::new(270000, |i: int|
        if mark_region(cell, pix_x(i), pix_y(i)) {
            sprite[sprite_index(cell, pix_x(i), pix_y(i), pix_c(i))]
        } else {
            canvas[i]
        })
}

/// The pixels a strike overlay touches: a row overlay covers the matched
/// row's 100px band at full width, a column overlay the matched column's
/// band at full height, and either diagonal overlay the whole canvas.
pub open spec fn overlay_region(id: int, x: int, y: int) -> bool {
    if id < 3 {
        100 * id <= y < 100 * (id + 1)
    } else if id < 6 {
        100 * (id - 3) <= x < 100 * (id - 2)
    } else {
        true
    }
}

/// Byte position of channel `c` of pixel `(x, y)` in a 300x300 RGBA buffer.
pub open spec fn rgba_index(x: int, y: int, c: int) -> int {
    (y * 300 + x) * 4 + c
}

/// One channel of source-over compositing with 8-bit colours: the exact
/// value of `(bg * (255 - a) + ov * a) / 255` rounded towards zero, which
/// never exceeds 255.
pub open spec fn blend_channel(bg: u8, ov: u8, a: u8) -> u8 {
    (((bg as int) * (255 - (a as int)) + (ov as int) * (a as int)) / 255) as u8
}

/// `canvas` with the RGBA overlay for line `id` alpha-blended over every
/// pixel of that line's region.
pub open spec fn overlay_blended(canvas: Seq<u8>, overlay: Seq<u8>, id: int) -> Seq<u8> {
    Seq::new(270000, |i: int|
        if overlay_region(id, pix_x(i), pix_y(i)) {
            blend_channel(
                canvas[i],
                overlay[rgba_index(pix_x(i), pix_y(i), pix_c(i))],
                overlay[rgba_index(pix_x(i), pix_y(i), 3)],
            )
        } else {
            canvas[i]
        })
}

pub open spec fn in_rect(x: int, y: int, rx: int, ry: int, rw: int, rh: int) -> bool {
    rx <= x < rx + rw && ry <= y < ry + rh
}

/// The border segments highlighting the cursor's cell, 4px wide, drawn on
/// the cell edges that face the board interior. Corner cells get two
/// segments, edge cells three and the centre cell four, so that dividers
/// shared with a neighbouring cell are never double-drawn.
pub open spec fn outline_region(cell: int, x: int, y: int) -> bool {
    if cell == 0 {
        in_rect(x, y, 98, 0, 4, 102) || in_rect(x, y, 0, 98, 98, 4)
    } else if cell == 1 {
        in_rect(x, y, 198, 0, 4, 102) || in_rect(x, y, 98, 98, 100, 4)
            || in_rect(x, y, 98, 0, 4, 98)
    } else if cell == 2 {
        in_rect(x, y, 198, 98, 102, 4) || in_rect(x, y, 198, 0, 4, 98)
    } else if cell == 3 {
        in_rect(x, y, 0, 98, 102, 4) || in_rect(x, y, 98, 102, 4, 100)
            || in_rect(x, y, 0, 198, 98, 4)
    } else if cell == 4 {
        in_rect(x, y, 98, 98, 104, 4) || in_rect(x, y, 198, 102, 4, 100)
            || in_rect(x, y, 98, 198, 100, 4) || in_rect(x, y, 98, 102, 4, 96)
    } else if cell == 5 {
        in_rect(x, y, 198, 98, 102, 4) || in_rect(x, y, 198, 198, 102, 4)
            || in_rect(x, y, 198, 102, 4, 96)
    } else if cell == 6 {
        in_rect(x, y, 0, 198, 102, 4) || in_rect(x, y, 98, 202, 4, 98)
    } else if cell == 7 {
        in_rect(x, y, 98, 198, 104, 4) || in_rect(x, y, 198, 202, 4, 98)
            || in_rect(x, y, 98, 202, 4, 98)
    } else {
        in_rect(x, y, 198, 198, 102, 4) || in_rect(x, y, 198, 202, 4, 98)
    }
}

/// `canvas` with the selection outline of the cursor's cell drawn in red.
pub open spec fn cursor_outlined(canvas: Seq<u8>, cell: int) -> Seq<u8> {
    Seq::new(270000, |i: int|
        if outline_region(cell, pix_x(i), pix_y(i)) {
            outline_channel(pix_c(i))
        } else {
            canvas[i]
        })
}

/// One channel of the blend, in exec arithmetic; the product form fits
/// comfortably in 32 bits and its quotient never exceeds 255.
fn blend_channel_exec(bg: u8, ov: u8, a: u8) -> (r: u8)
    ensures
        r == blend_channel(bg, ov, a),
{
    proof {
        assert((bg as int) * (255 - (a as int)) + (ov as int) * (a as int) <= 65025
            && (bg as int) * (255 - (a as int)) >= 0 && (ov as int) * (a as int) >= 0)
            by (nonlinear_arith)
            requires
                bg <= 255,
                ov <= 255,
                a <= 255,
        ;
    }
    let weighted: u32 = (bg as u32) * (255 - a as u32) + (ov as u32) * (a as u32);
    (weighted / 255) as u8
}

/// A 300x300 RGB raster holding the rendered board.
pub struct Canvas {
    pixels: Vec<u8>,
}

impl View for Canvas {
    type V = Seq<u8>;

    closed spec fn view(&self) -> Seq<u8> {
        self.pixels@
    }
}

impl Canvas {
    pub open spec fn wf(&self) -> bool {
        self@.len() == 270000
    }

    /// The empty-board canvas: dark background with the grey cell dividers.
    pub fn new_board() -> (r: Canvas)
        ensures
            r.wf(),
            r@ == template_pixels(),
    {
        let mut pixels: Vec<u8> = Vec::new();
        let mut i: usize = 0;
        while i < 270000
            invariant
                pixels@.len() == i,
                i <= 270000,
                forall|j: int| 0 <= j < i ==> pixels@[j] == template_pixels()[j],
            decreases 270000 - i,
        {
            let x = (i / 3) % 300;
            let y = i / 900;
            let c = i % 3;
            let byte: u8 = if (98 <= x && x < 102) || (198 <= x && x < 202)
                || (98 <= y && y < 102) || (198 <= y && y < 202) {
                232
            } else if c == 0 {
                42
            } else if c == 1 {
                44
            } else {
                47
            };
            pixels.push(byte);
            i += 1;
        }
        let r = Canvas { pixels };
        proof {
            assert(r@ =~= template_pixels());
        }
        r
    }

    /// An identical copy, for compositing that must not touch the original.
    pub fn duplicate(&self) -> (r: Canvas)
        requires
            self.wf(),
        ensures
            r.wf(),
            r@ == self@,
    {
        let pixels = self.pixels.clone();
        proof {
            assert forall|i: int| 0 <= i < self.pixels@.len() implies pixels@[i]
                == self.pixels@[i] by {
            }
            assert(pixels@ =~= self.pixels@);
        }
        Canvas { pixels }
    }

    /// Overwrite every pixel of the given rectangle with `col`.
    pub fn fill_rect(&mut self, x0: usize, y0: usize, w: usize, h: usize, col: (u8, u8, u8))
        requires
            old(self).wf(),
            x0 + w <= 300,
            y0 + h <= 300,
        ensures
            final(self).wf(),
            final(self)@ == rect_filled(old(self)@, x0 as int, y0 as int, w as int, h as int, col),
    {
        let ghost target = rect_filled(old(self)@, x0 as int, y0 as int, w as int, h as int, col);
        let mut y = y0;
        while y < y0 + h
            invariant
                self.wf(),
                y0 <= y <= y0 + h,
                x0 + w <= 300,
                y0 + h <= 300,
                target == rect_filled(old(self)@, x0 as int, y0 as int, w as int, h as int, col),
                forall|i: int| 0 <= i < 270000 ==> self@[i] == (
                    if x0 <= pix_x(i) < x0 + w && y0 <= pix_y(i) < y {
                        target[i]
                    } else {
                        old(self)@[i]
                    }),
            decreases y0 + h - y,
        {
            let mut x = x0;
            while x < x0 + w
                invariant
                    self.wf(),
                    x0 <= x <= x0 + w,
                    y0 <= y < y0 + h,
                    x0 + w <= 300,
                    y0 + h <= 300,
                    target == rect_filled(old(self)@, x0 as int, y0 as int, w as int, h as int, col),
                    forall|i: int| 0 <= i < 270000 ==> self@[i] == (
                        if x0 <= pix_x(i) < x0 + w && (y0 <= pix_y(i) < y
                            || (pix_y(i) == y && pix_x(i) < x)) {
                            target[i]
                        } else {
                            old(self)@[i]
                        }),
                decreases x0 + w - x,
            {
                let base = (y * 300 + x) * 3;
                self.pixels[base] = col.0;
                self.pixels[base + 1] = col.1;
                self.pixels[base + 2] = col.2;
                proof {
                    lemma_pix_decode(x as int, y as int, 0);
                    lemma_pix_decode(x as int, y as int, 1);
                    lemma_pix_decode(x as int, y as int, 2);
                    assert forall|i: int| 0 <= i < 270000 implies self@[i] == (
                        if x0 <= pix_x(i) < x0 + w && (y0 <= pix_y(i) < y
                            || (pix_y(i) == y && pix_x(i) < x + 1)) {
                            target[i]
                        } else {
                            old(self)@[i]
                        }) by {
                        lemma_pix_encode(i);
                    }
                }
                x += 1;
            }
            proof {
                assert forall|i: int| 0 <= i < 270000 implies self@[i] == (
                    if x0 <= pix_x(i) < x0 + w && y0 <= pix_y(i) < y + 1 {
                        target[i]
                    } else {
                        old(self)@[i]
                    }) by {
                    lemma_pix_encode(i);
                }
            }
            y += 1;
        }
        proof {
            assert forall|i: int| 0 <= i < 270000 implies self@[i] == target[i] by {
                lemma_pix_encode(i);
            }
            assert(self@ =~= target);
        }
    }

    /// One channel byte of the pixel at `(x, y)`.
    pub fn byte_at(&self, x: usize, y: usize, c: usize) -> (r: u8)
        requires
            self.wf(),
            x < 300,
            y < 300,
            c < 3,
        ensures
            r == self@[pix_index(x as int, y as int, c as int)],
    {
        self.pixels[(y * 300 + x) * 3 + c]
    }

    /// The canvas PNG-encoded for delivery to a participant.
    pub fn to_png(&self) -> (r: Vec<u8>)
        requires
            self.wf(),
        ensures
            r@ == crate::png::png_encoding(self@),
    {
        crate::png::encode_png(&self.pixels)
    }

    /// Copy the 80x80 opaque sprite into `cell` at the fixed 10px inset,
    /// overwriting the pixels underneath; this is the only operation that
    /// permanently changes a session's canvas.
    pub fn blit_mark(&mut self, cell: usize, sprite: &Vec<u8>)
        requires
            old(self).wf(),
            cell < 9,
            sprite@.len() == 19200,
        ensures
            final(self).wf(),
            final(self)@ == mark_blitted(old(self)@, cell as int, sprite@),
    {
        let ghost target = mark_blitted(old(self)@, cell as int, sprite@);
        let ox = (cell % 3) * 100;
        let oy = (cell / 3) * 100;
        let mut sy: usize = 0;
        while sy < 80
            invariant
                self.wf(),
                sy <= 80,
                ox == ((cell as int) % 3) * 100,
                oy == ((cell as int) / 3) * 100,
                cell < 9,
                sprite@.len() == 19200,
                target == mark_blitted(old(self)@, cell as int, sprite@),
                forall|i: int| 0 <= i < 270000 ==> self@[i] == (
                    if mark_region(cell as int, pix_x(i), pix_y(i)) && pix_y(i) < oy + 10 + sy {
                        target[i]
                    } else {
                        old(self)@[i]
                    }),
            decreases 80 - sy,
        {
            let mut sx: usize = 0;
            while sx < 80
                invariant
                    self.wf(),
                    sx <= 80,
                    sy < 80,
                    ox == ((cell as int) % 3) * 100,
                    oy == ((cell as int) / 3) * 100,
                    cell < 9,
                    sprite@.len() == 19200,
                    target == mark_blitted(old(self)@, cell as int, sprite@),
                    forall|i: int| 0 <= i < 270000 ==> self@[i] == (
                        if mark_region(cell as int, pix_x(i), pix_y(i)) && (pix_y(i) < oy + 10 + sy
                            || (pix_y(i) == oy + 10 + sy && pix_x(i) < ox + 10 + sx)) {
                            target[i]
                        } else {
                            old(self)@[i]
                        }),
                decreases 80 - sx,
            {
                let x = ox + 10 + sx;
                let y = oy + 10 + sy;
                let dbase = (y * 300 + x) * 3;
                let sbase = (sy * 80 + sx) * 3;
                self.pixels[dbase] = sprite[sbase];
                self.pixels[dbase + 1] = sprite[sbase + 1];
                self.pixels[dbase + 2] = sprite[sbase + 2];
                proof {
                    lemma_pix_decode(x as int, y as int, 0);
                    lemma_pix_decode(x as int, y as int, 1);
                    lemma_pix_decode(x as int, y as int, 2);
                    assert forall|i: int| 0 <= i < 270000 implies self@[i] == (
                        if mark_region(cell as int, pix_x(i), pix_y(i)) && (pix_y(i) < oy + 10 + sy
                            || (pix_y(i) == oy + 10 + sy && pix_x(i) < ox + 10 + sx + 1)) {
                            target[i]
                        } else {
                            old(self)@[i]
                        }) by {
                        lemma_pix_encode(i);
                    }
                }
                sx += 1;
            }
            proof {
                assert forall|i: int| 0 <= i < 270000 implies self@[i] == (
                    if mark_region(cell as int, pix_x(i), pix_y(i)) && pix_y(i) < oy + 10 + sy + 1 {
                        target[i]
                    } else {
                        old(self)@[i]
                    }) by {
                    lemma_pix_encode(i);
                }
            }
            sy += 1;
        }
        proof {
            assert forall|i: int| 0 <= i < 270000 implies self@[i] == target[i] by {
                lemma_pix_encode(i);
            }
            assert(self@ =~= target);
        }
    }

    /// Alpha-blend the 300x300 RGBA strike overlay for line `id` over that
    /// line's region of the canvas.
    pub fn blend_overlay(&mut self, overlay: &Vec<u8>, id: u8)
        requires
            old(self).wf(),
            id < 8,
            overlay@.len() == 360000,
        ensures
            final(self).wf(),
            final(self)@ == overlay_blended(old(self)@, overlay@, id as int),
    {
        let ghost target = overlay_blended(old(self)@, overlay@, id as int);
        let mut y: usize = 0;
        while y < 300
            invariant
                self.wf(),
                y <= 300,
                id < 8,
                overlay@.len() == 360000,
                target == overlay_blended(old(self)@, overlay@, id as int),
                forall|i: int| 0 <= i < 270000 ==> self@[i] == (
                    if overlay_region(id as int, pix_x(i), pix_y(i)) && pix_y(i) < y {
                        target[i]
                    } else {
                        old(self)@[i]
                    }),
            decreases 300 - y,
        {
            let mut x: usize = 0;
            while x < 300
                invariant
                    self.wf(),
                    x <= 300,
                    y < 300,
                    id < 8,
                    overlay@.len() == 360000,
                    target == overlay_blended(old(self)@, overlay@, id as int),
                    forall|i: int| 0 <= i < 270000 ==> self@[i] == (
                        if overlay_region(id as int, pix_x(i), pix_y(i)) && (pix_y(i) < y
                            || (pix_y(i) == y && pix_x(i) < x)) {
                            target[i]
                        } else {
                            old(self)@[i]
                        }),
                decreases 300 - x,
            {
                let inside = if id < 3 {
                    let band = (id as usize) * 100;
                    band <= y && y < band + 100
                } else if id < 6 {
                    let band = (id as usize - 3) * 100;
                    band <= x && x < band + 100
                } else {
                    true
                };
                if inside {
                    let dbase = (y * 300 + x) * 3;
                    let obase = (y * 300 + x) * 4;
                    proof {
                        lemma_pix_decode(x as int, y as int, 0);
                        lemma_pix_decode(x as int, y as int, 1);
                        lemma_pix_decode(x as int, y as int, 2);
                    }
                    let a = overlay[obase + 3];
                    let c0 = blend_channel_exec(self.pixels[dbase], overlay[obase], a);
                    let c1 = blend_channel_exec(self.pixels[dbase + 1], overlay[obase + 1], a);
                    let c2 = blend_channel_exec(self.pixels[dbase + 2], overlay[obase + 2], a);
                    self.pixels[dbase] = c0;
                    self.pixels[dbase + 1] = c1;
                    self.pixels[dbase + 2] = c2;
                }
                proof {
                    assert forall|i: int| 0 <= i < 270000 implies self@[i] == (
                        if overlay_region(id as int, pix_x(i), pix_y(i)) && (pix_y(i) < y
                            || (pix_y(i) == y && pix_x(i) < x + 1)) {
                            target[i]
                        } else {
                            old(self)@[i]
                        }) by {
                        lemma_pix_encode(i);
                    }
                }
                x += 1;
            }
            proof {
                assert forall|i: int| 0 <= i < 270000 implies self@[i] == (
                    if overlay_region(id as int, pix_x(i), pix_y(i)) && pix_y(i) < y + 1 {
                        target[i]
                    } else {
                        old(self)@[i]
                    }) by {
                    lemma_pix_encode(i);
                }
            }
            y += 1;
        }
        proof {
            assert forall|i: int| 0 <= i < 270000 implies self@[i] == target[i] by {
                lemma_pix_encode(i);
            }
            assert(self@ =~= target);
        }
    }

    /// Draw the red selection outline of the cursor's cell on a disposable
    /// copy, leaving this canvas untouched.
    pub fn with_cursor_outline(&self, cell: usize) -> (r: Canvas)
        requires
            self.wf(),
            cell < 9,
        ensures
            r.wf(),
            r@ == cursor_outlined(self@, cell as int),
    {
        let red = (196u8, 57u8, 57u8);
        let mut r = self.duplicate();
        if cell == 0 {
            r.fill_rect(98, 0, 4, 102, red);
            r.fill_rect(0, 98, 98, 4, red);
        } else if cell == 1 {
            r.fill_rect(198, 0, 4, 102, red);
            r.fill_rect(98, 98, 100, 4, red);
            r.fill_rect(98, 0, 4, 98, red);
        } else if cell == 2 {
            r.fill_rect(198, 98, 102, 4, red);
            r.fill_rect(198, 0, 4, 98, red);
        } else if cell == 3 {
            r.fill_rect(0, 98, 102, 4, red);
            r.fill_rect(98, 102, 4, 100, red);
            r.fill_rect(0, 198, 98, 4, red);
        } else if cell == 4 {
            r.fill_rect(98, 98, 104, 4, red);
            r.fill_rect(198, 102, 4, 100, red);
            r.fill_rect(98, 198, 100, 4, red);
            r.fill_rect(98, 102, 4, 96, red);
        } else if cell == 5 {
            r.fill_rect(198, 98, 102, 4, red);
            r.fill_rect(198, 198, 102, 4, red);
            r.fill_rect(198, 102, 4, 96, red);
        } else if cell == 6 {
            r.fill_rect(0, 198, 102, 4, red);
            r.fill_rect(98, 202, 4, 98, red);
        } else if cell == 7 {
            r.fill_rect(98, 198, 104, 4, red);
            r.fill_rect(198, 202, 4, 98, red);
            r.fill_rect(98, 202, 4, 98, red);
        } else {
            r.fill_rect(198, 198, 102, 4, red);
            r.fill_rect(198, 202, 4, 98, red);
        }
        proof {
            assert forall|i: int| 0 <= i < 270000 implies r@[i]
                == cursor_outlined(self@, cell as int)[i] by {
                lemma_pix_encode(i);
            }
            assert(r@ =~= cursor_outlined(self@, cell as int));
        }
        r
    }
}

} // verus!
