use vstd::prelude::*;

verus! {

/// Width of the framebuffer in pixels.
pub const SCREEN_WIDTH: usize = 64;

/// Height of the framebuffer in pixels.
pub const SCREEN_HEIGHT: usize = 32;

/// Number of cells of the framebuffer, stored row-major (`y * 64 + x`).
pub const SCREEN_SIZE: usize = 2048;

/// The framebuffer cell that sprite row `row`, bit `col` lands on when the
/// sprite is drawn at `(x0, y0)`: coordinates wrap around both edges.
pub open spec fn target_cell(x0: int, y0: int, row: int, col: int) -> int {
    ((y0 + row) % 32) * 64 + (x0 + col) % 64
}

/// How many rows below `y0` (wrapping) the row of cell `c` lies.
pub open spec fn rel_row(c: int, y0: int) -> int {
    let r = c / 64;
    if r >= y0 {
        r - y0
    } else {
        r + 32 - y0
    }
}

/// How many columns right of `x0` (wrapping) the column of cell `c` lies.
pub open spec fn rel_col(c: int, x0: int) -> int {
    let k = c % 64;
    if k >= x0 {
        k - x0
    } else {
        k + 64 - x0
    }
}

/// Bit `col` of a sprite row, counted from the most significant bit.
pub open spec fn sprite_bit(row: u8, col: int) -> bool {
    row & (0x80u8 >> (col as u8)) != 0
}

/// Whether a set sprite bit lands on cell `c` when `sprite` is drawn at `(x0, y0)`.
pub open spec fn covers(sprite: Seq<u8>, x0: int, y0: int, c: int) -> bool {
    let r = rel_row(c, y0);
    let k = rel_col(c, x0);
    &&& r < sprite.len()
    &&& k < 8
    &&& sprite_bit(sprite[r], k)
}

/// The framebuffer after drawing `sprite` at `(x0, y0)`: each cell under a set
/// sprite bit is flipped, every other cell is kept.
pub open spec fn drawn(display: Seq<u8>, sprite: Seq<u8>, x0: int, y0: int) -> Seq<u8> {
    Seq::new(
        display.len(),
        |c: int|
            if covers(sprite, x0, y0, c) {
                display[c] ^ 1
            } else {
                display[c]
            },
    )
}

/// Whether drawing `sprite` at `(x0, y0)` clears a pixel that was set.
pub open spec fn collides(display: Seq<u8>, sprite: Seq<u8>, x0: int, y0: int) -> bool {
    exists|c: int| 0 <= c < display.len() && #[trigger] covers(sprite, x0, y0, c) && display[c] == 1
}

/// A framebuffer of the right size whose cells are all 0 or 1.
pub open spec fn display_wf(display: Seq<u8>) -> bool {
    &&& display.len() == SCREEN_SIZE
    &&& forall|c: int| 0 <= c < display.len() ==> #[trigger] display[c] <= 1
}

/// Sprite row `row`, bit `col` lands on one cell, which lies `row` rows and
/// `col` columns from the origin, wrapping; no other cell does.
pub proof fn lemma_target_cell(x0: int, y0: int, row: int, col: int)
    requires
        0 <= x0 < 64,
        0 <= y0 < 32,
        0 <= row < 32,
        0 <= col < 64,
    ensures
        0 <= target_cell(x0, y0, row, col) < 2048,
        rel_row(target_cell(x0, y0, row, col), y0) == row,
        rel_col(target_cell(x0, y0, row, col), x0) == col,
        forall|c: int|
            0 <= c < 2048 && rel_row(c, y0) == row && rel_col(c, x0) == col ==> c == target_cell(
                x0,
                y0,
                row,
                col,
            ),
{
    let ty = (y0 + row) % 32;
    let tx = (x0 + col) % 64;
    assert(ty == if y0 + row >= 32 { y0 + row - 32 } else { y0 + row });
    assert(tx == if x0 + col >= 64 { x0 + col - 64 } else { x0 + col });
    let t = ty * 64 + tx;
    assert(t / 64 == ty && t % 64 == tx);
    assert forall|c: int|
        0 <= c < 2048 && rel_row(c, y0) == row && rel_col(c, x0) == col implies c == t by {
        assert(c == (c / 64) * 64 + c % 64);
    }
}

/// Drawing keeps every cell 0 or 1.
pub proof fn lemma_drawn_wf(display: Seq<u8>, sprite: Seq<u8>, x0: int, y0: int)
    requires
        display_wf(display),
    ensures
        display_wf(drawn(display, sprite, x0, y0)),
{
    assert forall|c: int| 0 <= c < display.len() implies #[trigger] drawn(
        display,
        sprite,
        x0,
        y0,
    )[c] <= 1 by {
        let d = display[c];
        assert(d <= 1 ==> d ^ 1 <= 1) by (bit_vector);
    }
}

/// Draws the `n`-row sprite stored at `memory[start..start + n]` at `(x0, y0)`,
/// flipping each cell under a set bit; returns whether a set cell was cleared.
pub fn draw_sprite(
    display: &mut [u8; 2048],
    memory: &[u8; 4096],
    start: usize,
    n: usize,
    x0: usize,
    y0: usize,
) -> (collided: bool)
    requires
        start + n <= 4096,
        n <= 32,
        x0 < 64,
        y0 < 32,
    ensures
        final(display)@ == drawn(old(display)@, memory@.subrange(start as int, start + n), x0 as int, y0 as int),
        collided == collides(old(display)@, memory@.subrange(start as int, start + n), x0 as int, y0 as int),
{
    let ghost sprite = memory@.subrange(start as int, start + n);
    let ghost orig = display@;
    let mut collided = false;
    let mut h: usize = 0;
    while h < n
        invariant
            h <= n,
            start + n <= 4096,
            n <= 32,
            x0 < 64,
            y0 < 32,
            sprite == memory@.subrange(start as int, start + n),
            forall|c: int|
                0 <= c < 2048 ==> #[trigger] display@[c] == if covers(sprite, x0 as int, y0 as int, c)
                    && rel_row(c, y0 as int) < h {
                    orig[c] ^ 1
                } else {
                    orig[c]
                },
            collided == exists|c: int|
                0 <= c < 2048 && #[trigger] covers(sprite, x0 as int, y0 as int, c) && rel_row(
                    c,
                    y0 as int,
                ) < h && orig[c] == 1,
        decreases n - h,
    {
        let row = memory[start + h];
        assert(row == sprite[h as int]);
        let mut w: usize = 0;
        while w < 8
            invariant
                h < n,
                w <= 8,
                start + n <= 4096,
                n <= 32,
                x0 < 64,
                y0 < 32,
                sprite == memory@.subrange(start as int, start + n),
                row == sprite[h as int],
                forall|c: int|
                    0 <= c < 2048 ==> #[trigger] display@[c] == if covers(sprite, x0 as int, y0 as int, c)
                        && (rel_row(c, y0 as int) < h || (rel_row(c, y0 as int) == h && rel_col(
                        c,
                        x0 as int,
                    ) < w)) {
                        orig[c] ^ 1
                    } else {
                        orig[c]
                    },
                collided == exists|c: int|
                    0 <= c < 2048 && #[trigger] covers(sprite, x0 as int, y0 as int, c) && (rel_row(
                        c,
                        y0 as int,
                    ) < h || (rel_row(c, y0 as int) == h && rel_col(c, x0 as int) < w)) && orig[c]
                        == 1,
            decreases 8 - w,
        {
            let idx = ((y0 + h) % 32) * 64 + (x0 + w) % 64;
            proof {
                lemma_target_cell(x0 as int, y0 as int, h as int, w as int);
            }
            let ghost old_display = display@;
            let ghost old_collided = collided;
            if row & (0x80u8 >> (w as u8)) != 0 {
                assert(covers(sprite, x0 as int, y0 as int, idx as int));
                if display[idx] == 1 {
                    collided = true;
                }
                display[idx] = display[idx] ^ 1;
            } else {
                assert(!covers(sprite, x0 as int, y0 as int, idx as int));
            }
            assert forall|c: int|
                0 <= c < 2048 && #[trigger] covers(sprite, x0 as int, y0 as int, c) && c != idx
                    implies ((rel_row(c, y0 as int) < h || (rel_row(c, y0 as int) == h && rel_col(
                    c,
                    x0 as int,
                ) < w + 1)) <==> (rel_row(c, y0 as int) < h || (rel_row(c, y0 as int) == h
                    && rel_col(c, x0 as int) < w))) by {}
            w = w + 1;
        }
        h = h + 1;
    }
    assert(display@ =~= drawn(orig, sprite, x0 as int, y0 as int));
    collided
}

} // verus!
