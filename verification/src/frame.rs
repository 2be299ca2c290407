//! The 64 by 32 monochrome frame buffer and the compositing of sprites onto it.
//!
//! A sprite is drawn by exclusive or, pixel by pixel. Coordinates wrap around
//! the edges of the screen: the pixel of sprite row `r` and column `c` lands
//! on column `(vx + c) mod 64` of row `(vy + r) mod 32`.

use vstd::prelude::*;
use crate::peripherals::PixelData;

verus! {

pub const SCREEN_WIDTH: usize = 64;

pub const SCREEN_HEIGHT: usize = 32;

/// Where the pixel of column `x` and row `y` stands in a frame.
pub open spec fn offset(x: int, y: int) -> int {
    y * 64 + x
}

/// A frame with every pixel off.
pub open spec fn blank() -> Seq<bool> {
    Seq::new(2048, |p: int| false)
}

/// Whether the sprite has a set bit in the given row and column. The most
/// significant bit of a row is its leftmost pixel.
pub open spec fn sprite_bit(sprite: Seq<u8>, row: int, col: int) -> bool {
    0 <= row < sprite.len() && 0 <= col < 8 && (sprite[row] >> ((7 - col) as u8)) & 1u8 == 1u8
}

/// Whether a sprite drawn at `(vx, vy)` has a set bit on the pixel of column
/// `x` and row `y` of the screen.
pub open spec fn sprite_at(sprite: Seq<u8>, vx: u8, vy: u8, x: int, y: int) -> bool {
    sprite_bit(sprite, (y - vy) % 32, (x - vx) % 64)
}

/// The frame after the sprite was drawn at `(vx, vy)`.
pub open spec fn drawn(frame: Seq<bool>, sprite: Seq<u8>, vx: u8, vy: u8) -> Seq<bool> {
    Seq::new(2048, |p: int| frame[p] != sprite_at(sprite, vx, vy, p % 64, p / 64))
}

/// Whether drawing the sprite at `(vx, vy)` turns a lit pixel off.
pub open spec fn collides(frame: Seq<bool>, sprite: Seq<u8>, vx: u8, vy: u8) -> bool {
    exists|p: int| 0 <= p < 2048 && frame[p] && sprite_at(sprite, vx, vy, p % 64, p / 64)
}

/// Where the `k`-th pixel of a sprite drawn at `(vx, vy)` lands, the pixels
/// counted row by row from the top left.
pub open spec fn landing(vx: u8, vy: u8, k: int) -> int {
    offset((vx + k % 8) % 64, (vy + k / 8) % 32)
}

/// The pixels that a sprite of `rows` rows drawn at `(vx, vy)` touches, row
/// by row, each with the value it has in `frame`.
pub open spec fn touched(frame: Seq<bool>, rows: int, vx: u8, vy: u8) -> Seq<PixelData> {
    Seq::new(
        (8 * rows) as nat,
        |k: int|
            PixelData {
                x: ((vx + k % 8) % 64) as usize,
                y: ((vy + k / 8) % 32) as usize,
                val: frame[landing(vx, vy, k)],
            },
    )
}

/// The place of a screen pixel within a sprite drawn at `(vx, vy)`, counted as
/// in `landing`; meaningful where the pixel lies in the sprite's eight columns.
pub open spec fn sprite_index(vx: u8, vy: u8, p: int) -> int {
    ((p / 64 - vy) % 32) * 8 + (p % 64 - vx) % 64
}

/// Going `d` forward around a ring of 32 and measuring back gives `d`.
proof fn forward_and_back_32(v: int, d: int)
    requires
        0 <= v,
        0 <= d < 32,
    ensures
        ((v + d) % 32 - v) % 32 == d,
{
    let q = (v + d) / 32;
    assert((v + d) % 32 - v == d - 32 * q);
}

/// Going `d` forward around a ring of 64 and measuring back gives `d`.
proof fn forward_and_back_64(v: int, d: int)
    requires
        0 <= v,
        0 <= d < 64,
    ensures
        ((v + d) % 64 - v) % 64 == d,
{
    let q = (v + d) / 64;
    assert((v + d) % 64 - v == d - 64 * q);
}

/// Measuring from `v` to `y` around a ring of 32 and going that far forward
/// ends at `y`.
proof fn back_and_forward_32(v: int, y: int)
    requires
        0 <= v,
        0 <= y < 32,
    ensures
        (v + (y - v) % 32) % 32 == y,
{
    let q = (y - v) / 32;
    assert(v + (y - v) % 32 == y - 32 * q);
}

/// Measuring from `v` to `x` around a ring of 64 and going that far forward
/// ends at `x`.
proof fn back_and_forward_64(v: int, x: int)
    requires
        0 <= v,
        0 <= x < 64,
    ensures
        (v + (x - v) % 64) % 64 == x,
{
    let q = (x - v) / 64;
    assert(v + (x - v) % 64 == x - 64 * q);
}

/// `landing` and `sprite_index` undo each other.
proof fn landing_inverts(vx: u8, vy: u8, k: int)
    requires
        0 <= k < 256,
    ensures
        0 <= landing(vx, vy, k) < 2048,
        landing(vx, vy, k) % 64 == (vx + k % 8) % 64,
        landing(vx, vy, k) / 64 == (vy + k / 8) % 32,
        (landing(vx, vy, k) / 64 - vy) % 32 == k / 8,
        (landing(vx, vy, k) % 64 - vx) % 64 == k % 8,
        sprite_index(vx, vy, landing(vx, vy, k)) == k,
{
    let row = k / 8;
    let col = k % 8;
    let y = (vy + row) % 32;
    let x = (vx + col) % 64;
    let p = landing(vx, vy, k);
    assert(p == y * 64 + x);
    assert(p % 64 == x && p / 64 == y);
    forward_and_back_32(vy as int, row);
    forward_and_back_64(vx as int, col);
    assert((y - vy) % 32 == row);
    assert((x - vx) % 64 == col);
    assert(sprite_index(vx, vy, p) == row * 8 + col);
}

/// `sprite_index` and `landing` undo each other on the pixels that lie in
/// the sprite's eight columns.
proof fn sprite_index_inverts(vx: u8, vy: u8, p: int)
    requires
        0 <= p < 2048,
        (p % 64 - vx) % 64 < 8,
    ensures
        0 <= sprite_index(vx, vy, p) < 256,
        landing(vx, vy, sprite_index(vx, vy, p)) == p,
        sprite_index(vx, vy, p) / 8 == (p / 64 - vy) % 32,
        sprite_index(vx, vy, p) % 8 == (p % 64 - vx) % 64,
{
    let y = p / 64;
    let x = p % 64;
    let row = (y - vy) % 32;
    let col = (x - vx) % 64;
    let k = sprite_index(vx, vy, p);
    assert(k == row * 8 + col);
    assert(k / 8 == row && k % 8 == col);
    back_and_forward_32(vy as int, y);
    back_and_forward_64(vx as int, x);
    assert((vy + row) % 32 == y);
    assert((vx + col) % 64 == x);
    assert(landing(vx, vy, k) == y * 64 + x);
}

/// The frame when the first `k` pixels of the sprite have been drawn.
spec fn drawn_upto(frame: Seq<bool>, sprite: Seq<u8>, vx: u8, vy: u8, k: int) -> Seq<bool> {
    Seq::new(
        2048,
        |p: int|
            frame[p] != (sprite_at(sprite, vx, vy, p % 64, p / 64) && sprite_index(vx, vy, p) < k),
    )
}

/// Whether one of the first `k` pixels of the sprite turned a lit pixel off.
spec fn collides_upto(frame: Seq<bool>, sprite: Seq<u8>, vx: u8, vy: u8, k: int) -> bool {
    exists|p: int|
        0 <= p < 2048 && frame[p] && sprite_at(sprite, vx, vy, p % 64, p / 64) && sprite_index(
            vx,
            vy,
            p,
        ) < k
}

/// Drawing a sprite twice at one place gives the frame back. The second
/// drawing reports a collision exactly where the sprite has a set bit on a
/// pixel that was off at first.
pub proof fn draw_twice_restores(frame: Seq<bool>, sprite: Seq<u8>, vx: u8, vy: u8)
    requires
        frame.len() == 2048,
    ensures
        drawn(drawn(frame, sprite, vx, vy), sprite, vx, vy) == frame,
        collides(drawn(frame, sprite, vx, vy), sprite, vx, vy) <==> exists|p: int|
            0 <= p < 2048 && !frame[p] && sprite_at(sprite, vx, vy, p % 64, p / 64),
{
    let once = drawn(frame, sprite, vx, vy);
    assert(drawn(once, sprite, vx, vy) =~= frame);
    if collides(once, sprite, vx, vy) {
        let p = choose|p: int|
            0 <= p < 2048 && once[p] && sprite_at(sprite, vx, vy, p % 64, p / 64);
        assert(!frame[p]);
    }
    if exists|p: int| 0 <= p < 2048 && !frame[p] && sprite_at(sprite, vx, vy, p % 64, p / 64) {
        let p = choose|p: int|
            0 <= p < 2048 && !frame[p] && sprite_at(sprite, vx, vy, p % 64, p / 64);
        assert(once[p]);
    }
}

/// A set bit of a sprite of at most 32 rows lands on the screen: drawn on a
/// pixel that is off it lights the pixel, and drawn again it turns the pixel
/// off and collides.
pub proof fn set_bit_toggles_its_pixel(
    frame: Seq<bool>,
    sprite: Seq<u8>,
    vx: u8,
    vy: u8,
    row: int,
    col: int,
)
    requires
        frame.len() == 2048,
        sprite.len() <= 32,
        sprite_bit(sprite, row, col),
        !frame[landing(vx, vy, 8 * row + col)],
    ensures
        drawn(frame, sprite, vx, vy)[landing(vx, vy, 8 * row + col)],
        collides(drawn(frame, sprite, vx, vy), sprite, vx, vy),
        !drawn(drawn(frame, sprite, vx, vy), sprite, vx, vy)[landing(vx, vy, 8 * row + col)],
{
    let k = 8 * row + col;
    let p = landing(vx, vy, k);
    landing_inverts(vx, vy, k);
    assert(sprite_at(sprite, vx, vy, p % 64, p / 64));
    draw_twice_restores(frame, sprite, vx, vy);
}

/// The frame after one pixel record was stored. A record beyond the screen
/// is dropped.
pub open spec fn stored_one(frame: Seq<bool>, pixel: PixelData) -> Seq<bool> {
    if pixel.x < 64 && pixel.y < 32 {
        frame.update(offset(pixel.x as int, pixel.y as int), pixel.val)
    } else {
        frame
    }
}

/// The frame after the pixel records were stored in turn.
pub open spec fn stored(frame: Seq<bool>, data: Seq<PixelData>) -> Seq<bool>
    decreases data.len(),
{
    if data.len() == 0 {
        frame
    } else {
        stored_one(stored(frame, data.drop_last()), data.last())
    }
}

/// Whether storing the record turns a lit pixel off.
pub open spec fn darkens_one(frame: Seq<bool>, pixel: PixelData) -> bool {
    pixel.x < 64 && pixel.y < 32 && frame[offset(pixel.x as int, pixel.y as int)] && !pixel.val
}

/// Whether storing the records in turn turns a lit pixel off.
pub open spec fn darkens(frame: Seq<bool>, data: Seq<PixelData>) -> bool
    decreases data.len(),
{
    if data.len() == 0 {
        false
    } else {
        darkens(frame, data.drop_last()) || darkens_one(
            stored(frame, data.drop_last()),
            data.last(),
        )
    }
}

/// A display that has stored the first `k` pixels that a draw hands out
/// holds the frame with the first `k` pixels of the sprite drawn.
#[verifier::rlimit(40)]
proof fn mirror_follows_upto(frame: Seq<bool>, sprite: Seq<u8>, vx: u8, vy: u8, k: int)
    requires
        frame.len() == 2048,
        sprite.len() <= 32,
        0 <= k <= 8 * sprite.len(),
    ensures
        stored(
            frame,
            touched(drawn(frame, sprite, vx, vy), sprite.len() as int, vx, vy).take(k),
        ) == drawn_upto(frame, sprite, vx, vy, k),
        darkens(
            frame,
            touched(drawn(frame, sprite, vx, vy), sprite.len() as int, vx, vy).take(k),
        ) == collides_upto(frame, sprite, vx, vy, k),
    decreases k,
{
    let after = drawn(frame, sprite, vx, vy);
    let all = touched(after, sprite.len() as int, vx, vy);
    let data = all.take(k);
    if k == 0 {
        assert(stored(frame, data) =~= drawn_upto(frame, sprite, vx, vy, 0));
        assert(!collides_upto(frame, sprite, vx, vy, 0));
    } else {
        mirror_follows_upto(frame, sprite, vx, vy, k - 1);
        assert(data.drop_last() =~= all.take(k - 1));
        let before = drawn_upto(frame, sprite, vx, vy, k - 1);
        let pixel = data.last();
        let place = landing(vx, vy, k - 1);
        landing_inverts(vx, vy, k - 1);
        assert(pixel == all[k - 1]);
        assert(pixel.x == (vx + (k - 1) % 8) % 64 && pixel.y == (vy + (k - 1) / 8) % 32);
        assert(offset(pixel.x as int, pixel.y as int) == place);
        assert(pixel.val == after[place]);
        assert(sprite_at(sprite, vx, vy, place % 64, place / 64) == sprite_bit(
            sprite,
            (k - 1) / 8,
            (k - 1) % 8,
        ));
        assert(before[place] == frame[place]);
        assert forall|p: int| 0 <= p < 2048 implies #[trigger] stored_one(before, pixel)[p]
            == drawn_upto(frame, sprite, vx, vy, k)[p] by {
            if sprite_at(sprite, vx, vy, p % 64, p / 64) {
                sprite_index_inverts(vx, vy, p);
            }
        }
        assert(stored(frame, data) =~= drawn_upto(frame, sprite, vx, vy, k));
        if collides_upto(frame, sprite, vx, vy, k) {
            let p = choose|p: int|
                0 <= p < 2048 && frame[p] && sprite_at(sprite, vx, vy, p % 64, p / 64)
                    && sprite_index(vx, vy, p) < k;
            sprite_index_inverts(vx, vy, p);
            if sprite_index(vx, vy, p) < k - 1 {
                assert(collides_upto(frame, sprite, vx, vy, k - 1));
            } else {
                assert(p == place);
                assert(darkens_one(before, pixel));
            }
        }
        if darkens(frame, data) {
            if darkens(frame, data.drop_last()) {
                let p = choose|p: int|
                    0 <= p < 2048 && frame[p] && sprite_at(sprite, vx, vy, p % 64, p / 64)
                        && sprite_index(vx, vy, p) < k - 1;
                assert(sprite_index(vx, vy, p) < k);
            } else {
                assert(darkens_one(before, pixel));
                assert(frame[place] && sprite_at(sprite, vx, vy, place % 64, place / 64)
                    && sprite_index(vx, vy, place) < k);
            }
        }
    }
}

/// A display that stores the pixels that a draw hands out follows the
/// engine: its frame is the engine's frame, and it sees a lit pixel go dark
/// exactly where the draw collides.
pub proof fn mirror_follows_engine(frame: Seq<bool>, sprite: Seq<u8>, vx: u8, vy: u8)
    requires
        frame.len() == 2048,
        sprite.len() <= 32,
    ensures
        stored(frame, touched(drawn(frame, sprite, vx, vy), sprite.len() as int, vx, vy)) == drawn(
            frame,
            sprite,
            vx,
            vy,
        ),
        darkens(frame, touched(drawn(frame, sprite, vx, vy), sprite.len() as int, vx, vy))
            == collides(frame, sprite, vx, vy),
{
    let after = drawn(frame, sprite, vx, vy);
    let all = touched(after, sprite.len() as int, vx, vy);
    let total: int = 8 * (sprite.len() as int);
    mirror_follows_upto(frame, sprite, vx, vy, total);
    assert(all.take(total) =~= all);
    assert forall|p: int| 0 <= p < 2048 implies #[trigger] drawn_upto(
        frame,
        sprite,
        vx,
        vy,
        total,
    )[p] == after[p] by {
        if sprite_at(sprite, vx, vy, p % 64, p / 64) {
            sprite_index_inverts(vx, vy, p);
        }
    }
    assert(drawn_upto(frame, sprite, vx, vy, total) =~= after);
    if collides(frame, sprite, vx, vy) {
        let p = choose|p: int|
            0 <= p < 2048 && frame[p] && sprite_at(sprite, vx, vy, p % 64, p / 64);
        sprite_index_inverts(vx, vy, p);
        assert(collides_upto(frame, sprite, vx, vy, total));
    }
    if collides_upto(frame, sprite, vx, vy, total) {
        let p = choose|p: int|
            0 <= p < 2048 && frame[p] && sprite_at(sprite, vx, vy, p % 64, p / 64)
                && sprite_index(vx, vy, p) < total;
        assert(collides(frame, sprite, vx, vy));
    }
}

/// The lit pixels among the first `k` of a frame, row by row, each as its
/// column and its row.
pub open spec fn lit_among(frame: Seq<bool>, k: int) -> Seq<(usize, usize)>
    decreases k,
{
    if k <= 0 {
        Seq::empty()
    } else if frame[k - 1] {
        lit_among(frame, k - 1).push((((k - 1) % 64) as usize, ((k - 1) / 64) as usize))
    } else {
        lit_among(frame, k - 1)
    }
}

/// The list of lit pixels holds a pixel exactly where it is lit.
pub proof fn lit_among_lists_the_lit(frame: Seq<bool>, k: int, x: usize, y: usize)
    requires
        0 <= k <= 2048,
    ensures
        lit_among(frame, k).contains((x, y)) <==> x < 64 && offset(x as int, y as int) < k
            && frame[offset(x as int, y as int)],
    decreases k,
{
    if k > 0 {
        lit_among_lists_the_lit(frame, k - 1, x, y);
        let rest = lit_among(frame, k - 1);
        let here = (((k - 1) % 64) as usize, ((k - 1) / 64) as usize);
        if frame[k - 1] {
            let all = rest.push(here);
            assert(all[all.len() - 1] == here);
            if rest.contains((x, y)) {
                let i = choose|i: int| 0 <= i < rest.len() && rest[i] == (x, y);
                assert(all[i] == (x, y));
            }
            if all.contains((x, y)) {
                let i = choose|i: int| 0 <= i < all.len() && all[i] == (x, y);
                if i < rest.len() {
                    assert(rest[i] == (x, y));
                }
            }
        }
    }
}

/// The frame as text: thirty-two lines of sixty-four characters, `X` for a
/// lit pixel and `_` for a dark one, each line ended by a line feed, and the
/// word `End` behind the last.
pub open spec fn text_of(frame: Seq<bool>) -> Seq<char> {
    Seq::new(
        2083,
        |i: int|
            if i >= 2082 {
                'd'
            } else if i >= 2081 {
                'n'
            } else if i >= 2080 {
                'E'
            } else if i % 65 == 64 {
                '\n'
            } else if frame[offset(i % 65, i / 65)] {
                'X'
            } else {
                '_'
            },
    )
}

/// The frame buffer: 2048 pixels, row by row.
pub struct FrameBuffer {
    pixels: [bool; 2048],
}

impl View for FrameBuffer {
    type V = Seq<bool>;

    closed spec fn view(&self) -> Seq<bool> {
        self.pixels@
    }
}

impl FrameBuffer {
    /// A frame with every pixel off.
    pub fn new() -> (r: FrameBuffer)
        ensures
            r@ == blank(),
    {
        let r = FrameBuffer { pixels: [false; 2048] };
        assert(r@ =~= blank());
        r
    }

    /// The length of a frame's model is fixed.
    pub proof fn len_is_fixed(&self)
        ensures
            self@.len() == 2048,
    {
    }

    /// Turns every pixel off.
    pub fn clear(&mut self)
        ensures
            final(self)@ == blank(),
    {
        self.pixels = [false; 2048];
        assert(self@ =~= blank());
    }

    /// Whether the pixel of column `x` and row `y` is lit.
    pub fn get(&self, x: usize, y: usize) -> (r: bool)
        requires
            x < SCREEN_WIDTH,
            y < SCREEN_HEIGHT,
        ensures
            r == self@[offset(x as int, y as int)],
    {
        self.pixels[y * 64 + x]
    }

    /// Draws a sprite, no taller than the screen, at `(vx, vy)` by exclusive
    /// or, wrapping around the edges. Returns whether a lit pixel went dark,
    /// and the touched pixels with their new values.
    #[verifier::rlimit(40)]
    pub fn draw_sprite(&mut self, vx: u8, vy: u8, sprite: &[u8]) -> (r: (bool, Vec<PixelData>))
        requires
            sprite.len() <= SCREEN_HEIGHT,
        ensures
            final(self)@ == drawn(old(self)@, sprite@, vx, vy),
            r.0 == collides(old(self)@, sprite@, vx, vy),
            r.1@ == touched(final(self)@, sprite@.len() as int, vx, vy),
    {
        let rows: usize = sprite.len();
        let mut collision: bool = false;
        let mut diffs: Vec<PixelData> = Vec::new();
        let mut row: usize = 0;
        assert(self@ =~= drawn_upto(old(self)@, sprite@, vx, vy, 0));
        while row < rows
            invariant
                rows == sprite.len(),
                rows <= 32,
                row <= rows,
                self@ == drawn_upto(old(self)@, sprite@, vx, vy, 8 * row),
                collision == collides_upto(old(self)@, sprite@, vx, vy, 8 * row),
                diffs@.len() == 8 * row,
                forall|j: int|
                    0 <= j < 8 * row ==> #[trigger] diffs@[j] == (PixelData {
                        x: ((vx + j % 8) % 64) as usize,
                        y: ((vy + j / 8) % 32) as usize,
                        val: self@[landing(vx, vy, j)],
                    }),
            decreases rows - row,
        {
            let line: u8 = sprite[row];
            let y: usize = (vy as usize + row) % 32;
            let mut col: usize = 0;
            while col < 8
                invariant
                    rows == sprite.len(),
                    rows <= 32,
                    row < rows,
                    col <= 8,
                    line == sprite@[row as int],
                    y == (vy + row) % 32,
                    self@ == drawn_upto(old(self)@, sprite@, vx, vy, 8 * row + col),
                    collision == collides_upto(old(self)@, sprite@, vx, vy, 8 * row + col),
                    diffs@.len() == 8 * row + col,
                    forall|j: int|
                        0 <= j < 8 * row + col ==> #[trigger] diffs@[j] == (PixelData {
                            x: ((vx + j % 8) % 64) as usize,
                            y: ((vy + j / 8) % 32) as usize,
                            val: self@[landing(vx, vy, j)],
                        }),
                decreases 8 - col,
            {
                let x: usize = (vx as usize + col) % 64;
                let bit: bool = (line >> ((7 - col) as u8)) & 1u8 == 1u8;
                let place: usize = y * 64 + x;
                let ghost k: int = 8 * row + col;
                let ghost before: Seq<bool> = self@;
                let ghost dark: bool = collision;
                proof {
                    landing_inverts(vx, vy, k);
                    assert(k / 8 == row as int && k % 8 == col as int);
                    assert(place == landing(vx, vy, k));
                    assert(bit == sprite_at(sprite@, vx, vy, place as int % 64, place as int / 64));
                }
                let was: bool = self.pixels[place];
                if was && bit {
                    collision = true;
                }
                self.pixels[place] = was != bit;
                diffs.push(PixelData { x, y, val: was != bit });
                proof {
                    assert forall|p: int| 0 <= p < 2048 implies #[trigger] self@[p] == drawn_upto(
                        old(self)@,
                        sprite@,
                        vx,
                        vy,
                        k + 1,
                    )[p] by {
                        if sprite_at(sprite@, vx, vy, p % 64, p / 64) {
                            sprite_index_inverts(vx, vy, p);
                        }
                    }
                    assert(self@ =~= drawn_upto(old(self)@, sprite@, vx, vy, k + 1));
                    if collides_upto(old(self)@, sprite@, vx, vy, k + 1) {
                        let p = choose|p: int|
                            0 <= p < 2048 && old(self)@[p] && sprite_at(
                                sprite@,
                                vx,
                                vy,
                                p % 64,
                                p / 64,
                            ) && sprite_index(vx, vy, p) < k + 1;
                        sprite_index_inverts(vx, vy, p);
                        assert(collision);
                    }
                    if collision {
                        if dark {
                            assert(collides_upto(old(self)@, sprite@, vx, vy, k + 1));
                        } else {
                            assert(old(self)@[place as int] && sprite_index(vx, vy, place as int)
                                < k + 1);
                            assert(collides_upto(old(self)@, sprite@, vx, vy, k + 1));
                        }
                    }
                    assert forall|j: int| 0 <= j < k + 1 implies #[trigger] diffs@[j]
                        == (PixelData {
                        x: ((vx + j % 8) % 64) as usize,
                        y: ((vy + j / 8) % 32) as usize,
                        val: self@[landing(vx, vy, j)],
                    }) by {
                        landing_inverts(vx, vy, j);
                    }
                }
                col = col + 1;
            }
            row = row + 1;
        }
        proof {
            assert forall|p: int| 0 <= p < 2048 implies #[trigger] self@[p] == drawn(
                old(self)@,
                sprite@,
                vx,
                vy,
            )[p] by {
                if sprite_at(sprite@, vx, vy, p % 64, p / 64) {
                    sprite_index_inverts(vx, vy, p);
                }
            }
            assert(self@ =~= drawn(old(self)@, sprite@, vx, vy));
            if collision {
                let p = choose|p: int|
                    0 <= p < 2048 && old(self)@[p] && sprite_at(sprite@, vx, vy, p % 64, p / 64)
                        && sprite_index(vx, vy, p) < 8 * rows;
                assert(collides(old(self)@, sprite@, vx, vy));
            }
            if collides(old(self)@, sprite@, vx, vy) {
                let p = choose|p: int|
                    0 <= p < 2048 && old(self)@[p] && sprite_at(sprite@, vx, vy, p % 64, p / 64);
                sprite_index_inverts(vx, vy, p);
                assert(collides_upto(old(self)@, sprite@, vx, vy, 8 * rows));
            }
            assert(diffs@ =~= touched(self@, sprite@.len() as int, vx, vy));
        }
        (collision, diffs)
    }

    /// Stores a batch of pixel records, as a display does that follows the
    /// engine. Returns whether a lit pixel went dark. A record beyond the
    /// screen is dropped.
    pub fn set_pixel_data(&mut self, data: &[PixelData]) -> (r: bool)
        ensures
            final(self)@ == stored(old(self)@, data@),
            r == darkens(old(self)@, data@),
    {
        let mut dark: bool = false;
        let mut i: usize = 0;
        assert(data@.take(0) =~= Seq::<PixelData>::empty());
        while i < data.len()
            invariant
                i <= data@.len(),
                self@ == stored(old(self)@, data@.take(i as int)),
                dark == darkens(old(self)@, data@.take(i as int)),
            decreases data@.len() - i,
        {
            let pixel: PixelData = data[i];
            proof {
                assert(data@.take(i + 1).drop_last() =~= data@.take(i as int));
                assert(data@.take(i + 1).last() == pixel);
            }
            if pixel.x < 64 && pixel.y < 32 {
                let place: usize = pixel.y * 64 + pixel.x;
                if self.pixels[place] && !pixel.val {
                    dark = true;
                }
                self.pixels[place] = pixel.val;
            }
            i = i + 1;
        }
        assert(data@.take(data@.len() as int) =~= data@);
        dark
    }

    /// The lit pixels, row by row, each as its column and its row.
    pub fn lit_pixels(&self) -> (r: Vec<(usize, usize)>)
        ensures
            r@ == lit_among(self@, 2048),
    {
        let mut lit: Vec<(usize, usize)> = Vec::new();
        let mut place: usize = 0;
        while place < 2048
            invariant
                place <= 2048,
                lit@ == lit_among(self@, place as int),
            decreases 2048 - place,
        {
            if self.pixels[place] {
                lit.push((place % 64, place / 64));
            }
            place = place + 1;
        }
        lit
    }

    /// The frame as text, to print or to log.
    pub fn to_text(&self) -> (r: String)
        ensures
            r@ == text_of(self@),
    {
        let mut text = String::new();
        let mut y: usize = 0;
        proof {
            reveal_strlit("X");
            reveal_strlit("_");
            reveal_strlit("\n");
            reveal_strlit("End");
            assert(text@ =~= text_of(self@).take(0));
        }
        while y < 32
            invariant
                y <= 32,
                "X"@ == seq!['X'],
                "_"@ == seq!['_'],
                "\n"@ == seq!['\n'],
                text@ == text_of(self@).take(65 * y),
            decreases 32 - y,
        {
            let mut x: usize = 0;
            while x < 64
                invariant
                    y < 32,
                    x <= 64,
                    "X"@ == seq!['X'],
                    "_"@ == seq!['_'],
                    text@ == text_of(self@).take(65 * y + x),
                decreases 64 - x,
            {
                if self.pixels[y * 64 + x] {
                    text.append("X");
                } else {
                    text.append("_");
                }
                assert(text@ =~= text_of(self@).take(65 * y + x + 1));
                x = x + 1;
            }
            text.append("\n");
            assert(text@ =~= text_of(self@).take(65 * (y + 1)));
            y = y + 1;
        }
        text.append("End");
        assert(text@ =~= text_of(self@));
        text
    }
}

} // verus!
