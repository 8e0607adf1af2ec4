//! The 64x32 monochrome bitmap, the list of lit points that the
//! presentation surface shows, and sprite drawing by exclusive or.

use vstd::prelude::*;

verus! {

/// Columns of the bitmap.
pub const DISPLAY_WIDTH: usize = 64;

/// Rows of the bitmap.
pub const DISPLAY_HEIGHT: usize = 32;

/// Size of the window in physical pixels, width first.
pub const WINDOW_SIZE: (u32, u32) = (1024, 512);

/// Size of the logical frame that the window is scaled from, width first.
pub const LOGICAL_WINDOW_SIZE: (u32, u32) = (64, 32);

/// The bitmap as a model: 32 rows of 64 pixels, `true` for lit.
pub type Bitmap = Seq<Seq<bool>>;

/// A point of the logical frame.
#[derive(Clone, Copy, Debug, PartialEq, Eq, Structural)]
pub struct Pixel {
    /// Column, 0 at the left edge.
    pub x: u8,
    /// Row, 0 at the top edge.
    pub y: u8,
}

/// Whether `(c, r)` names a pixel of the bitmap.
pub open spec fn in_frame(c: int, r: int) -> bool {
    0 <= c < DISPLAY_WIDTH && 0 <= r < DISPLAY_HEIGHT
}

/// Whether `b` has 32 rows of 64 pixels.
pub open spec fn bitmap_shaped(b: Bitmap) -> bool {
    &&& b.len() == DISPLAY_HEIGHT
    &&& forall|r: int| 0 <= r < DISPLAY_HEIGHT ==> (#[trigger] b[r]).len() == DISPLAY_WIDTH
}

/// The bitmap with every pixel unlit.
pub open spec fn blank() -> Bitmap {
    Seq::new(DISPLAY_HEIGHT as nat, |r: int| Seq::new(DISPLAY_WIDTH as nat, |c: int| false))
}

/// `b` with the pixel in column `c` of row `r` set to `lit`.
pub open spec fn with_pixel(b: Bitmap, c: int, r: int, lit: bool) -> Bitmap {
    b.update(r, b[r].update(c, lit))
}

/// Whether bit `col` of a sprite row is set, bit 0 being the leftmost.
pub open spec fn sprite_bit(row: u8, col: u8) -> bool {
    (row >> (7 - col) as u8) & 1 == 1
}

/// Whether `sprite`, placed with its top-left corner at column `x0` of row
/// `y0`, has a set bit over column `c` of row `r`.
pub open spec fn sprite_covers(sprite: Seq<u8>, x0: int, y0: int, c: int, r: int) -> bool {
    &&& y0 <= r < y0 + sprite.len()
    &&& x0 <= c < x0 + 8
    &&& sprite_bit(sprite[r - y0], (c - x0) as u8)
}

/// Whether drawing `sprite` at `(x0, y0)` flips the pixel `(c, r)`: a set
/// bit lies over it and it is inside the frame. Set bits that fall outside
/// the frame flip nothing.
pub open spec fn flips(sprite: Seq<u8>, x0: int, y0: int, c: int, r: int) -> bool {
    in_frame(c, r) && sprite_covers(sprite, x0, y0, c, r)
}

/// Whether drawing `sprite` at `(x0, y0)` on `b` turns off the pixel
/// `(c, r)`.
pub open spec fn erases(b: Bitmap, sprite: Seq<u8>, x0: int, y0: int, c: int, r: int) -> bool {
    flips(sprite, x0, y0, c, r) && b[r][c]
}

/// `b` after `sprite` was drawn at `(x0, y0)`: every pixel under a set bit
/// is flipped, every other pixel is kept.
pub open spec fn drawn(b: Bitmap, sprite: Seq<u8>, x0: int, y0: int) -> Bitmap {
    Seq::new(
        DISPLAY_HEIGHT as nat,
        |r: int|
            Seq::new(DISPLAY_WIDTH as nat, |c: int| b[r][c] != flips(sprite, x0, y0, c, r)),
    )
}

/// Whether drawing `sprite` at `(x0, y0)` on `b` turns off a lit pixel.
pub open spec fn collides(b: Bitmap, sprite: Seq<u8>, x0: int, y0: int) -> bool {
    exists|c: int, r: int| #[trigger] erases(b, sprite, x0, y0, c, r)
}

/// Whether drawing `sprite` at `(x0, y0)` flips any pixel.
pub open spec fn touches(sprite: Seq<u8>, x0: int, y0: int) -> bool {
    exists|c: int, r: int| #[trigger] flips(sprite, x0, y0, c, r)
}

/// The list `points` without `p`: its first occurrence leaves and the
/// other points keep their order. A list that lacks `p` stays as it is.
pub open spec fn unlisted(points: Seq<Pixel>, p: Pixel) -> Seq<Pixel> {
    if points.contains(p) {
        points.remove(points.index_of(p))
    } else {
        points
    }
}

/// The list `points` after the pixel `p` was flipped: a listed point
/// leaves, an unlisted one is appended.
pub open spec fn relisted(points: Seq<Pixel>, p: Pixel) -> Seq<Pixel> {
    if points.contains(p) {
        unlisted(points, p)
    } else {
        points.push(p)
    }
}

/// The pixels that drawing `sprite` at `(x0, y0)` flips among the first
/// `steps` bits of the sprite, in the order of the scan: row by row, and
/// left to right within a row.
pub open spec fn flipped(sprite: Seq<u8>, x0: int, y0: int, steps: nat) -> Seq<Pixel>
    decreases steps,
{
    if steps == 0 {
        Seq::empty()
    } else {
        let k = steps - 1;
        let c = x0 + k % 8;
        let r = y0 + k / 8;
        let earlier = flipped(sprite, x0, y0, k as nat);
        if flips(sprite, x0, y0, c, r) {
            earlier.push(Pixel { x: c as u8, y: r as u8 })
        } else {
            earlier
        }
    }
}

/// The list `points` after each of `pixels` was flipped in turn.
pub open spec fn relisted_all(points: Seq<Pixel>, pixels: Seq<Pixel>) -> Seq<Pixel>
    decreases pixels.len(),
{
    if pixels.len() == 0 {
        points
    } else {
        relisted(relisted_all(points, pixels.drop_last()), pixels.last())
    }
}

/// Bits of the sprite that flip nothing add nothing to the flipped pixels.
pub proof fn lemma_flipped_skip(sprite: Seq<u8>, x0: int, y0: int, from: nat, to: nat)
    requires
        from <= to,
        forall|k: int| from <= k < to ==> !#[trigger] flips(sprite, x0, y0, x0 + k % 8, y0 + k / 8),
    ensures
        flipped(sprite, x0, y0, to) == flipped(sprite, x0, y0, from),
    decreases to,
{
    if from < to {
        let k = to - 1;
        assert(!flips(sprite, x0, y0, x0 + k % 8, y0 + k / 8));
        lemma_flipped_skip(sprite, x0, y0, from, k as nat);
    }
}

/// Whether a scan of the sprite at `(x0, y0)`, row by row and left to
/// right, has passed the pixel `(c, r)` when it stands before bit `bit` of
/// sprite row `row`.
pub open spec fn scanned(x0: int, y0: int, row: int, bit: int, c: int, r: int) -> bool {
    r < y0 + row || (r == y0 + row && c < x0 + bit)
}

/// The points that the presentation surface has to show as lit.
pub struct Renderer {
    to_be_rendered: Vec<Pixel>,
}

impl View for Renderer {
    type V = Seq<Pixel>;

    closed spec fn view(&self) -> Seq<Pixel> {
        self.to_be_rendered@
    }
}

impl Renderer {
    /// A renderer with nothing to show.
    pub fn new() -> (renderer: Renderer)
        ensures
            renderer@ == Seq::<Pixel>::empty(),
    {
        Renderer { to_be_rendered: Vec::new() }
    }

    /// The points to paint, in the order in which they were lit.
    pub fn points(&self) -> (points: &Vec<Pixel>)
        ensures
            points@ == self@,
    {
        &self.to_be_rendered
    }
}

/// What a sprite did to the bitmap.
#[derive(Clone, Copy, Debug, PartialEq, Eq, Structural)]
pub struct DrawOutcome {
    /// A lit pixel was turned off.
    pub collision: bool,
    /// A pixel was flipped.
    pub changed: bool,
}

/// The display buffer: the bitmap and the renderer that lists its lit
/// points.
pub struct Display {
    pixels: [[bool; 64]; 32],
    renderer: Renderer,
}

impl View for Display {
    type V = Bitmap;

    closed spec fn view(&self) -> Bitmap {
        Seq::new(DISPLAY_HEIGHT as nat, |r: int| self.pixels[r]@)
    }
}

impl Display {
    /// The renderer lists each lit pixel once and nothing else.
    pub closed spec fn wf(&self) -> bool {
        &&& self.renderer@.no_duplicates()
        &&& forall|k: int|
            0 <= k < self.renderer@.len() ==> {
                let p = #[trigger] self.renderer@[k];
                in_frame(p.x as int, p.y as int) && self.pixels[p.y as int][p.x as int]
            }
        &&& forall|c: int, r: int|
            in_frame(c, r) && #[trigger] self.pixels[r][c] ==> self.renderer@.contains(
                Pixel { x: c as u8, y: r as u8 },
            )
    }

    /// The bitmap always has 32 rows of 64 pixels.
    pub proof fn lemma_shape(&self)
        ensures
            bitmap_shaped(self@),
    {
    }

    /// A display with every pixel unlit.
    pub fn new() -> (display: Display)
        ensures
            display.wf(),
            display@ == blank(),
            display.renderer()@ == Seq::<Pixel>::empty(),
    {
        let display = Display { pixels: [[false; 64]; 32], renderer: Renderer::new() };
        assert(display@ =~~= blank());
        display
    }

    /// The renderer that lists the lit points.
    #[verifier::when_used_as_spec(spec_renderer)]
    pub fn renderer(&self) -> (renderer: &Renderer)
        ensures
            renderer == self.spec_renderer(),
    {
        &self.renderer
    }

    /// The renderer that lists the lit points.
    pub closed spec fn spec_renderer(&self) -> &Renderer {
        &self.renderer
    }

    /// On a well-formed display the renderer lists exactly the lit pixels,
    /// each once.
    pub proof fn lemma_renderer_lists_lit(&self)
        requires
            self.wf(),
        ensures
            self.renderer()@.no_duplicates(),
            forall|p: Pixel|
                self.renderer()@.contains(p) <==> in_frame(p.x as int, p.y as int)
                    && self@[p.y as int][p.x as int],
    {
        assert forall|p: Pixel|
            self.renderer@.contains(p) <==> in_frame(p.x as int, p.y as int)
                && self@[p.y as int][p.x as int] by {
            if in_frame(p.x as int, p.y as int) && self@[p.y as int][p.x as int] {
                assert(self.pixels[p.y as int][p.x as int]);
                assert(Pixel { x: p.x as int as u8, y: p.y as int as u8 } == p);
            }
        }
    }

    /// Turns every pixel off.
    pub fn clear_screen(&mut self)
        ensures
            final(self).wf(),
            final(self)@ == blank(),
            final(self).renderer()@ == Seq::<Pixel>::empty(),
    {
        self.pixels = [[false; 64]; 32];
        self.renderer.to_be_rendered = Vec::new();
        assert(self@ =~~= blank());
    }

    /// Whether the pixel in column `x` of row `y` is lit.
    pub fn read_pixel_at(&self, x: u8, y: u8) -> (lit: bool)
        requires
            in_frame(x as int, y as int),
        ensures
            lit == self@[y as int][x as int],
    {
        self.pixels[y as usize][x as usize]
    }

    /// Lights a pixel and lists it with the renderer; a pixel that is lit
    /// already stays as it is and is not listed twice.
    pub fn draw_pixel_at(&mut self, x: u8, y: u8)
        requires
            old(self).wf(),
            in_frame(x as int, y as int),
        ensures
            final(self).wf(),
            final(self)@ == with_pixel(old(self)@, x as int, y as int, true),
            final(self).renderer()@ == if old(self)@[y as int][x as int] {
                old(self).renderer()@
            } else {
                old(self).renderer()@.push(Pixel { x, y })
            },
    {
        if self.pixels[y as usize][x as usize] {
            assert(self@ =~~= with_pixel(old(self)@, x as int, y as int, true));
            return ;
        }
        let ghost before = self.renderer@;
        self.renderer.to_be_rendered.push(Pixel { x, y });
        self.pixels[y as usize][x as usize] = true;
        proof {
            let p = Pixel { x, y };
            assert(self.renderer@ == before.push(p));
            assert(!before.contains(p));
            assert forall|c: int, r: int|
                in_frame(c, r) && #[trigger] self.pixels[r][c] implies self.renderer@.contains(
                Pixel { x: c as u8, y: r as u8 },
            ) by {
                let q = Pixel { x: c as u8, y: r as u8 };
                if c == x && r == y {
                    assert(self.renderer@[before.len() as int] == q);
                } else {
                    assert(old(self).pixels[r][c]);
                    assert(before.contains(q));
                    let k = choose|k: int| 0 <= k < before.len() && before[k] == q;
                    assert(self.renderer@[k] == q);
                }
            }
            assert(self@ =~~= with_pixel(old(self)@, x as int, y as int, true));
        }
    }

    /// Turns a pixel off and takes it from the renderer's list.
    pub fn remove_pixel_at(&mut self, x: u8, y: u8)
        requires
            old(self).wf(),
            in_frame(x as int, y as int),
        ensures
            final(self).wf(),
            final(self)@ == with_pixel(old(self)@, x as int, y as int, false),
            final(self).renderer()@ == unlisted(old(self).renderer()@, Pixel { x, y }),
    {
        let ghost before = self.renderer@;
        let ghost target = Pixel { x, y };
        let mut k: usize = 0;
        while k < self.renderer.to_be_rendered.len()
            invariant
                old(self).wf(),
                in_frame(x as int, y as int),
                target == (Pixel { x, y }),
                before == old(self).renderer@,
                self.renderer@ == before,
                self.pixels == old(self).pixels,
                k <= before.len(),
                forall|j: int| 0 <= j < k ==> before[j] != target,
            decreases before.len() - k,
        {
            let pixel = self.renderer.to_be_rendered[k];
            if pixel.x == x && pixel.y == y {
                self.renderer.to_be_rendered.remove(k);
                self.pixels[y as usize][x as usize] = false;
                proof {
                    let after = self.renderer@;
                    assert(after == before.remove(k as int));
                    assert(before[k as int] == target);
                    assert(before.contains(target));
                    assert(before.index_of(target) == k);
                    assert forall|j: int| 0 <= j < after.len() implies {
                        let p = #[trigger] after[j];
                        in_frame(p.x as int, p.y as int) && self.pixels[p.y as int][p.x as int]
                    } by {
                        let i = if j < k { j } else { j + 1 };
                        assert(after[j] == before[i]);
                        assert(before[i] != target);
                    }
                    assert forall|i: int, j: int|
                        0 <= i < after.len() && 0 <= j < after.len() && i != j implies after[i]
                        != after[j] by {
                        let i0 = if i < k { i } else { i + 1 };
                        let j0 = if j < k { j } else { j + 1 };
                        assert(after[i] == before[i0]);
                        assert(after[j] == before[j0]);
                    }
                    assert forall|c: int, r: int|
                        in_frame(c, r) && #[trigger] self.pixels[r][c] implies after.contains(
                        Pixel { x: c as u8, y: r as u8 },
                    ) by {
                        let q = Pixel { x: c as u8, y: r as u8 };
                        assert(old(self).pixels[r][c]);
                        assert(before.contains(q));
                        let i = choose|i: int| 0 <= i < before.len() && before[i] == q;
                        assert(i != k);
                        let j = if i < k { i } else { i - 1 };
                        assert(after[j] == q);
                    }
                    assert(self@ =~~= with_pixel(old(self)@, x as int, y as int, false));
                }
                return ;
            }
            k += 1;
        }
        proof {
            assert(!before.contains(target));
            if old(self).pixels[y as int][x as int] {
                assert(before.contains(Pixel { x: x as int as u8, y: y as int as u8 }));
            }
            assert(self@ =~~= with_pixel(old(self)@, x as int, y as int, false));
        }
    }
    /// Draws `bytes` as a sprite, one byte per row and the high bit
    /// leftmost, with its top-left corner at column `x % 64` of row
    /// `y % 32`. Each pixel under a set bit is flipped; rows and columns
    /// past the edge of the frame are dropped, not wrapped.
    pub fn draw_sprite(&mut self, x: u8, y: u8, bytes: &Vec<u8>) -> (outcome: DrawOutcome)
        requires
            old(self).wf(),
        ensures
            final(self).wf(),
            final(self)@ == drawn(old(self)@, bytes@, x as int % 64, y as int % 32),
            outcome.collision == collides(old(self)@, bytes@, x as int % 64, y as int % 32),
            outcome.changed == touches(bytes@, x as int % 64, y as int % 32),
            final(self).renderer()@ == relisted_all(
                old(self).renderer()@,
                flipped(bytes@, x as int % 64, y as int % 32, (8 * bytes.len()) as nat),
            ),
    {
        let x0: u8 = x % 64;
        let mut curr_y: u8 = y % 32;
        let ghost y0: int = curr_y as int;
        let ghost before = self@;
        let ghost listed = self.renderer@;
        let ghost sprite = bytes@;
        let mut collision = false;
        let mut changed = false;
        let mut row: usize = 0;
        proof {
            self.lemma_shape();
        }
        while row < bytes.len() && curr_y < 32
            invariant
                self.wf(),
                bitmap_shaped(before),
                sprite == bytes@,
                x0 < 64,
                0 <= y0 < 32,
                row <= bytes.len(),
                curr_y == y0 + row,
                self.renderer@ == relisted_all(
                    listed,
                    flipped(sprite, x0 as int, y0, (8 * row) as nat),
                ),
                forall|c: int, r: int|
                    in_frame(c, r) ==> #[trigger] self@[r][c] == (before[r][c] != (flips(
                        sprite,
                        x0 as int,
                        y0,
                        c,
                        r,
                    ) && scanned(x0 as int, y0, row as int, 0, c, r))),
                collision <==> exists|c: int, r: int|
                    #[trigger] erases(before, sprite, x0 as int, y0, c, r) && scanned(
                        x0 as int,
                        y0,
                        row as int,
                        0,
                        c,
                        r,
                    ),
                changed <==> exists|c: int, r: int|
                    #[trigger] flips(sprite, x0 as int, y0, c, r) && scanned(
                        x0 as int,
                        y0,
                        row as int,
                        0,
                        c,
                        r,
                    ),
            decreases bytes.len() - row,
        {
            let byte: u8 = bytes[row];
            let mut bit: u8 = 0;
            while bit < 8 && x0 + bit < 64
                invariant
                    self.wf(),
                    bitmap_shaped(before),
                    sprite == bytes@,
                    x0 < 64,
                    0 <= y0 < 32,
                    row < bytes.len(),
                    byte == sprite[row as int],
                    curr_y == y0 + row,
                    curr_y < 32,
                    bit <= 8,
                    self.renderer@ == relisted_all(
                        listed,
                        flipped(sprite, x0 as int, y0, (8 * row + bit) as nat),
                    ),
                    forall|c: int, r: int|
                        in_frame(c, r) ==> #[trigger] self@[r][c] == (before[r][c] != (flips(
                            sprite,
                            x0 as int,
                            y0,
                            c,
                            r,
                        ) && scanned(x0 as int, y0, row as int, bit as int, c, r))),
                    collision <==> exists|c: int, r: int|
                        #[trigger] erases(before, sprite, x0 as int, y0, c, r) && scanned(
                            x0 as int,
                            y0,
                            row as int,
                            bit as int,
                            c,
                            r,
                        ),
                    changed <==> exists|c: int, r: int|
                        #[trigger] flips(sprite, x0 as int, y0, c, r) && scanned(
                            x0 as int,
                            y0,
                            row as int,
                            bit as int,
                            c,
                            r,
                        ),
                decreases 8 - bit,
            {
                let curr_x: u8 = x0 + bit;
                let new_pixel: u8 = (byte >> (7 - bit)) & 1;
                let old_pixel = self.read_pixel_at(curr_x, curr_y);
                let ghost mid = self@;
                let ghost mid_list = self.renderer@;
                let ghost here = Pixel { x: curr_x, y: curr_y };
                let ghost done = flipped(sprite, x0 as int, y0, (8 * row + bit) as nat);
                proof {
                    self.lemma_renderer_lists_lit();
                    assert(mid_list.contains(here) == old_pixel);
                    self.lemma_shape();
                    assert(flips(sprite, x0 as int, y0, curr_x as int, curr_y as int) == (new_pixel
                        == 1));
                    assert(!scanned(
                        x0 as int,
                        y0,
                        row as int,
                        bit as int,
                        curr_x as int,
                        curr_y as int,
                    ));
                    assert(old_pixel == before[curr_y as int][curr_x as int]);
                }
                if new_pixel == 1 && !old_pixel {
                    self.draw_pixel_at(curr_x, curr_y);
                    changed = true;
                } else if new_pixel == 1 && old_pixel {
                    collision = true;
                    changed = true;
                    self.remove_pixel_at(curr_x, curr_y);
                }
                proof {
                    let k = 8 * row + bit;
                    assert(k % 8 == bit && k / 8 == row);
                    let next = flipped(sprite, x0 as int, y0, (k + 1) as nat);
                    if new_pixel == 1 {
                        assert(next == done.push(here));
                        assert(next.drop_last() =~= done);
                        assert(self.renderer@ == relisted(mid_list, here));
                    } else {
                        assert(next == done);
                    }
                    assert(self.renderer@ == relisted_all(listed, next));
                    self.lemma_shape();
                    assert forall|c: int, r: int| in_frame(c, r) implies #[trigger] self@[r][c] == (
                    before[r][c] != (flips(sprite, x0 as int, y0, c, r) && scanned(
                        x0 as int,
                        y0,
                        row as int,
                        bit as int + 1,
                        c,
                        r,
                    ))) by {
                        assert(mid[r][c] == (before[r][c] != (flips(sprite, x0 as int, y0, c, r)
                            && scanned(x0 as int, y0, row as int, bit as int, c, r))));
                    }
                    if new_pixel == 1 {
                        assert(flips(sprite, x0 as int, y0, curr_x as int, curr_y as int));
                        assert(scanned(
                            x0 as int,
                            y0,
                            row as int,
                            bit as int + 1,
                            curr_x as int,
                            curr_y as int,
                        ));
                        if old_pixel {
                            assert(erases(
                                before,
                                sprite,
                                x0 as int,
                                y0,
                                curr_x as int,
                                curr_y as int,
                            ));
                        }
                    }
                }
                bit += 1;
            }
            proof {
                lemma_flipped_skip(
                    sprite,
                    x0 as int,
                    y0,
                    (8 * row + bit) as nat,
                    (8 * row + 8) as nat,
                );
                assert forall|c: int, r: int| in_frame(c, r) implies (flips(
                    sprite,
                    x0 as int,
                    y0,
                    c,
                    r,
                ) && scanned(x0 as int, y0, row as int, bit as int, c, r)) == (flips(
                    sprite,
                    x0 as int,
                    y0,
                    c,
                    r,
                ) && scanned(x0 as int, y0, row as int + 1, 0, c, r)) by {}
            }
            curr_y += 1;
            row += 1;
        }
        proof {
            lemma_flipped_skip(sprite, x0 as int, y0, (8 * row) as nat, (8 * bytes.len()) as nat);
            self.lemma_shape();
            assert forall|c: int, r: int| #[trigger]
                flips(sprite, x0 as int, y0, c, r) implies scanned(
                x0 as int,
                y0,
                row as int,
                0,
                c,
                r,
            ) by {}
            assert(self@ =~~= drawn(before, sprite, x0 as int, y0));
        }
        DrawOutcome { collision, changed }
    }
}

} // verus!
