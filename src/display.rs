//! The 64x32 monochrome frame buffer and XOR sprite drawing.

use vstd::prelude::*;

verus! {

/// Pixels per row.
pub const WIDTH: usize = 64;
/// Rows.
pub const HEIGHT: usize = 32;
/// Pixels in the frame buffer, stored row-major (`row * WIDTH + col`).
pub const PIXELS: usize = 2048;

/// A frame buffer: `PIXELS` entries, each 0 (off) or 1 (on).
pub open spec fn valid_frame(v: Seq<u8>) -> bool {
    v.len() == PIXELS && forall|p: int| 0 <= p < PIXELS ==> #[trigger] v[p] <= 1
}

/// Bit `j` of a sprite row, counting from the most significant bit (`0 <= j < 8`).
pub open spec fn sprite_bit(b: u8, j: int) -> bool {
    (b >> ((7 - j) as u8)) & 1u8 == 1u8
}

/// The sprite row that reaches pixel `p` when the sprite's corner is at
/// `(vx, vy)`, wrapping vertically.
pub open spec fn sprite_row_at(vy: u8, p: int) -> int {
    (p / 64 - vy as int) % 32
}

/// The sprite column that reaches pixel `p`, wrapping horizontally.
pub open spec fn sprite_col_at(vx: u8, p: int) -> int {
    (p % 64 - vx as int) % 64
}

/// Whether drawing `sprite` at `(vx, vy)` flips pixel `p`: the one sprite cell
/// that lands on `p` exists and holds a set bit.
pub open spec fn flips(vx: u8, vy: u8, sprite: Seq<u8>, p: int) -> bool {
    let i = sprite_row_at(vy, p);
    let j = sprite_col_at(vx, p);
    i < sprite.len() && j < 8 && sprite_bit(sprite[i], j)
}

/// The frame buffer after XOR-drawing `sprite` (at most 15 rows) at `(vx, vy)`.
pub open spec fn drawn(v: Seq<u8>, vx: u8, vy: u8, sprite: Seq<u8>) -> Seq<u8> {
    Seq::new(v.len(), |p: int| if flips(vx, vy, sprite, p) { (1 - v[p]) as u8 } else { v[p] })
}

/// Whether drawing `sprite` at `(vx, vy)` turns off a pixel that was on.
pub open spec fn collides(v: Seq<u8>, vx: u8, vy: u8, sprite: Seq<u8>) -> bool {
    exists|p: int| 0 <= p < v.len() && #[trigger] flips(vx, vy, sprite, p) && v[p] == 1
}

/// The pixel that sprite cell `(i, j)` lands on.
pub open spec fn cell_pixel(vx: u8, vy: u8, i: int, j: int) -> int {
    ((vy as int + i) % 32) * 64 + (vx as int + j) % 64
}

/// Whether pixel `p` is flipped by one of the cells visited before `(i, j)`
/// in row-major order.
pub open spec fn flipped_before(vx: u8, vy: u8, sprite: Seq<u8>, p: int, i: int, j: int) -> bool {
    flips(vx, vy, sprite, p) && (sprite_row_at(vy, p) < i || (sprite_row_at(vy, p) == i
        && sprite_col_at(vx, p) < j))
}

proof fn lemma_cell_pixel(vx: u8, vy: u8, i: int, j: int)
    requires
        0 <= i < 32,
        0 <= j < 64,
    ensures
        0 <= cell_pixel(vx, vy, i, j) < PIXELS,
        sprite_row_at(vy, cell_pixel(vx, vy, i, j)) == i,
        sprite_col_at(vx, cell_pixel(vx, vy, i, j)) == j,
        forall|p: int|
            0 <= p < PIXELS && sprite_row_at(vy, p) == i && sprite_col_at(vx, p) == j
                ==> p == cell_pixel(vx, vy, i, j),
{
    let r = (vy as int + i) % 32;
    let c = (vx as int + j) % 64;
    assert(0 <= r < 32 && 0 <= c < 64);
    let p0 = r * 64 + c;
    assert(p0 / 64 == r && p0 % 64 == c) by (nonlinear_arith)
        requires p0 == r * 64 + c, 0 <= r < 32, 0 <= c < 64;
    assert((r - vy as int) % 32 == i);
    assert((c - vx as int) % 64 == j);
    assert forall|p: int|
        0 <= p < PIXELS && sprite_row_at(vy, p) == i && sprite_col_at(vx, p) == j
            implies p == p0 by {
        let pr = p / 64;
        let pc = p % 64;
        assert(p == pr * 64 + pc && 0 <= pr < 32 && 0 <= pc < 64);
        assert(pr == r);
        assert(pc == c);
    }
}

/// XOR-draws the `height`-row sprite stored at `memory[start..start + height]`
/// at `(vx, vy)`, wrapping at the edges, and reports whether any pixel that
/// was on got turned off.
pub fn draw_sprite(video: &mut Vec<u8>, memory: &Vec<u8>, start: usize, height: u8, vx: u8, vy: u8)
    -> (collision: bool)
    requires
        valid_frame(old(video)@),
        height < 16,
        start + height <= memory.len(),
    ensures
        final(video)@ == drawn(old(video)@, vx, vy, memory@.subrange(start as int, start + height)),
        collision == collides(old(video)@, vx, vy, memory@.subrange(start as int, start + height)),
        valid_frame(final(video)@),
{
    let ghost v0 = video@;
    let ghost sprite = memory@.subrange(start as int, start + height);
    let mut collision = false;
    let mut i: u8 = 0;
    while i < height
        invariant
            0 <= i <= height < 16,
            start + height <= memory.len(),
            sprite == memory@.subrange(start as int, start + height),
            valid_frame(v0),
            video@.len() == PIXELS,
            forall|p: int| 0 <= p < PIXELS ==> #[trigger] video@[p]
                == if flipped_before(vx, vy, sprite, p, i as int, 0) { (1 - v0[p]) as u8 } else { v0[p] },
            collision == exists|p: int| 0 <= p < PIXELS
                && #[trigger] flipped_before(vx, vy, sprite, p, i as int, 0) && v0[p] == 1,
        decreases height - i,
    {
        let row_byte = memory[start + i as usize];
        let row: usize = ((vy as usize) + (i as usize)) % HEIGHT;
        let mut j: u8 = 0;
        while j < 8
            invariant
                0 <= i < height < 16,
                0 <= j <= 8,
                start + height <= memory.len(),
                sprite == memory@.subrange(start as int, start + height),
                row_byte == sprite[i as int],
                row == (vy as int + i) % 32,
                valid_frame(v0),
                video@.len() == PIXELS,
                forall|p: int| 0 <= p < PIXELS ==> #[trigger] video@[p]
                    == if flipped_before(vx, vy, sprite, p, i as int, j as int) { (1 - v0[p]) as u8 } else { v0[p] },
                collision == exists|p: int| 0 <= p < PIXELS
                    && #[trigger] flipped_before(vx, vy, sprite, p, i as int, j as int) && v0[p] == 1,
            decreases 8 - j,
        {
            let col: usize = ((vx as usize) + (j as usize)) % WIDTH;
            let offset: usize = row * WIDTH + col;
            proof {
                lemma_cell_pixel(vx, vy, i as int, j as int);
                assert(offset == cell_pixel(vx, vy, i as int, j as int));
            }
            let bit = (row_byte >> (7 - j)) & 1u8;
            let ghost before = video@;
            if bit == 1 {
                if video[offset] != 0 {
                    video.set(offset, 0);
                    collision = true;
                } else {
                    video.set(offset, 1);
                }
            }
            proof {
                assert(sprite_bit(row_byte, j as int) == (bit == 1));
                assert forall|p: int| 0 <= p < PIXELS implies
                    (flipped_before(vx, vy, sprite, p, i as int, j + 1)
                        <==> (flipped_before(vx, vy, sprite, p, i as int, j as int)
                            || (p == offset && bit == 1))) by {}
                if bit == 1 {
                    assert(flipped_before(vx, vy, sprite, offset as int, i as int, j + 1));
                    assert(!flipped_before(vx, vy, sprite, offset as int, i as int, j as int));
                    assert(before[offset as int] == v0[offset as int]);
                }
                let was = exists|p: int| 0 <= p < PIXELS
                    && #[trigger] flipped_before(vx, vy, sprite, p, i as int, j as int) && v0[p] == 1;
                if was {
                    let p = choose|p: int| 0 <= p < PIXELS
                        && #[trigger] flipped_before(vx, vy, sprite, p, i as int, j as int) && v0[p] == 1;
                    assert(flipped_before(vx, vy, sprite, p, i as int, j + 1));
                }
                if bit == 1 && v0[offset as int] == 1 {
                    assert(flipped_before(vx, vy, sprite, offset as int, i as int, j + 1));
                }
                if exists|p: int| 0 <= p < PIXELS
                    && #[trigger] flipped_before(vx, vy, sprite, p, i as int, j + 1) && v0[p] == 1 {
                    let p = choose|p: int| 0 <= p < PIXELS
                        && #[trigger] flipped_before(vx, vy, sprite, p, i as int, j + 1) && v0[p] == 1;
                    if p != offset || bit != 1 {
                        assert(flipped_before(vx, vy, sprite, p, i as int, j as int));
                    }
                }
            }
            j = j + 1;
        }
        proof {
            assert forall|p: int| 0 <= p < PIXELS implies
                (flipped_before(vx, vy, sprite, p, i + 1, 0)
                    <==> flipped_before(vx, vy, sprite, p, i as int, 8)) by {}
            if exists|p: int| 0 <= p < PIXELS
                && #[trigger] flipped_before(vx, vy, sprite, p, i as int, 8) && v0[p] == 1 {
                let p = choose|p: int| 0 <= p < PIXELS
                    && #[trigger] flipped_before(vx, vy, sprite, p, i as int, 8) && v0[p] == 1;
                assert(flipped_before(vx, vy, sprite, p, i + 1, 0));
            }
            if exists|p: int| 0 <= p < PIXELS
                && #[trigger] flipped_before(vx, vy, sprite, p, i + 1, 0) && v0[p] == 1 {
                let p = choose|p: int| 0 <= p < PIXELS
                    && #[trigger] flipped_before(vx, vy, sprite, p, i + 1, 0) && v0[p] == 1;
                assert(flipped_before(vx, vy, sprite, p, i as int, 8));
            }
        }
        i = i + 1;
    }
    proof {
        assert forall|p: int| 0 <= p < PIXELS implies
            (flipped_before(vx, vy, sprite, p, i as int, 0) <==> flips(vx, vy, sprite, p)) by {}
        assert(video@ =~= drawn(v0, vx, vy, sprite));
        if collision {
            let p = choose|p: int| 0 <= p < PIXELS
                && #[trigger] flipped_before(vx, vy, sprite, p, i as int, 0) && v0[p] == 1;
            assert(flips(vx, vy, sprite, p));
        }
        if collides(v0, vx, vy, sprite) {
            let p = choose|p: int| 0 <= p < v0.len() && #[trigger] flips(vx, vy, sprite, p) && v0[p] == 1;
            assert(flipped_before(vx, vy, sprite, p, i as int, 0));
        }
    }
    collision
}

/// Drawing the same sprite twice at the same place gives back the frame
/// buffer as it was; the second draw collides exactly when the first lit a
/// pixel that had been off.
pub proof fn lemma_draw_twice_restores(v: Seq<u8>, vx: u8, vy: u8, sprite: Seq<u8>)
    requires
        valid_frame(v),
    ensures
        drawn(drawn(v, vx, vy, sprite), vx, vy, sprite) == v,
        collides(drawn(v, vx, vy, sprite), vx, vy, sprite)
            <==> exists|p: int| 0 <= p < v.len() && #[trigger] flips(vx, vy, sprite, p) && v[p] == 0,
{
    let once = drawn(v, vx, vy, sprite);
    assert(drawn(once, vx, vy, sprite) =~= v);
    if collides(once, vx, vy, sprite) {
        let p = choose|p: int| 0 <= p < once.len() && #[trigger] flips(vx, vy, sprite, p) && once[p] == 1;
        assert(v[p] == 0);
    }
    if exists|p: int| 0 <= p < v.len() && #[trigger] flips(vx, vy, sprite, p) && v[p] == 0 {
        let p = choose|p: int| 0 <= p < v.len() && #[trigger] flips(vx, vy, sprite, p) && v[p] == 0;
        assert(once[p] == 1);
    }
}

} // verus!
