use vstd::prelude::*;

verus! {

/// Pixels in a framebuffer row.
pub const SCREEN_WIDTH: usize = 64;

/// Rows in the framebuffer.
pub const SCREEN_HEIGHT: usize = 32;

/// Pixels in the framebuffer, stored row by row from the top left.
pub const SCREEN_PIXELS: usize = 2048;

/// The most rows a sprite can have.
pub const MAX_SPRITE_ROWS: usize = 15;

/// Whether column `col` of a sprite row is set. Column 0 is the leftmost
/// pixel, held in the byte's highest bit.
pub open spec fn sprite_bit(bits: u8, col: int) -> bool {
    (bits >> ((7 - col) as u8)) & 1 == 1
}

/// The sprite row that lands on pixel `p` when the sprite's top edge is at
/// `y`, wrapping at the bottom of the screen.
pub open spec fn sprite_row_at(y: int, p: int) -> int {
    (p / (SCREEN_WIDTH as int) - y) % (SCREEN_HEIGHT as int)
}

/// The sprite column that lands on pixel `p` when the sprite's left edge is
/// at `x`, wrapping at the right of the screen.
pub open spec fn sprite_col_at(x: int, p: int) -> int {
    (p % (SCREEN_WIDTH as int) - x) % (SCREEN_WIDTH as int)
}

/// Whether drawing `sprite` at `(x, y)` toggles pixel `p`: a set bit of the
/// sprite lands on it.
pub open spec fn covers(sprite: Seq<u8>, x: int, y: int, p: int) -> bool {
    let row = sprite_row_at(y, p);
    let col = sprite_col_at(x, p);
    col < 8 && row < sprite.len() && sprite_bit(sprite[row], col)
}

/// The framebuffer after `sprite` is drawn at `(x, y)`: every pixel that a
/// set bit lands on is inverted, the others are kept.
pub open spec fn blit(screen: Seq<bool>, sprite: Seq<u8>, x: int, y: int) -> Seq<bool> {
    Seq::new(screen.len(), |p: int| screen[p] != covers(sprite, x, y, p))
}

/// Whether drawing `sprite` at `(x, y)` turns off a pixel that was on.
pub open spec fn collides(screen: Seq<bool>, sprite: Seq<u8>, x: int, y: int) -> bool {
    exists|p: int| 0 <= p < screen.len() && #[trigger] screen[p] && covers(sprite, x, y, p)
}

/// The index of the pixel in column `gx` of row `gy`.
pub open spec fn pixel_index(gx: int, gy: int) -> int {
    gy * SCREEN_WIDTH + gx
}

/// A sprite bit at `(row, col)` of a sprite drawn at `(x, y)` lands on the
/// pixel at `((x + col) mod 64, (y + row) mod 32)`, and on no other.
pub proof fn lemma_landing_pixel(x: int, y: int, row: int, col: int, p: int)
    requires
        0 <= row < 32,
        0 <= col < 64,
        0 <= p < SCREEN_PIXELS,
    ensures
        (sprite_row_at(y, p) == row && sprite_col_at(x, p) == col) <==> p == pixel_index(
            (x + col) % 64,
            (y + row) % 32,
        ),
{
}

/// Whether the sprite bit that lands on `p` comes before `(row, col)` when
/// the sprite is walked row by row, each row left to right.
spec fn drawn_before(x: int, y: int, row: int, col: int, p: int) -> bool {
    sprite_row_at(y, p) < row || (sprite_row_at(y, p) == row && sprite_col_at(x, p) < col)
}

/// Draws the `rows`-row sprite held at `memory[start..start + rows]` at
/// `(x, y)` and reports whether a lit pixel was turned off.
pub(crate) fn draw_sprite(
    screen: &mut [bool; 2048],
    memory: &[u8; 4096],
    start: usize,
    rows: usize,
    x: u8,
    y: u8,
) -> (collision: bool)
    requires
        rows <= MAX_SPRITE_ROWS,
        start + rows <= 4096,
    ensures
        final(screen)@ == blit(
            old(screen)@,
            memory@.subrange(start as int, start + rows),
            x as int,
            y as int,
        ),
        collision == collides(
            old(screen)@,
            memory@.subrange(start as int, start + rows),
            x as int,
            y as int,
        ),
{
    let ghost sprite = memory@.subrange(start as int, start + rows);
    let ghost before = screen@;
    let mut collision = false;
    let mut row: usize = 0;
    while row < rows
        invariant
            row <= rows <= MAX_SPRITE_ROWS,
            start + rows <= 4096,
            sprite == memory@.subrange(start as int, start + rows),
            before.len() == SCREEN_PIXELS,
            forall|p: int|
                0 <= p < 2048 ==> #[trigger] screen@[p] == (before[p] != (covers(
                    sprite,
                    x as int,
                    y as int,
                    p,
                ) && drawn_before(x as int, y as int, row as int, 0, p))),
            collision <==> exists|p: int|
                0 <= p < 2048 && #[trigger] before[p] && covers(sprite, x as int, y as int, p)
                    && drawn_before(x as int, y as int, row as int, 0, p),
        decreases rows - row,
    {
        let bits: u8 = memory[start + row];
        let gy: usize = (y as usize + row) % 32;
        let mut col: usize = 0;
        while col < 8
            invariant
                row < rows <= MAX_SPRITE_ROWS,
                col <= 8,
                sprite.len() == rows,
                before.len() == SCREEN_PIXELS,
                bits == sprite[row as int],
                gy == (y + row) % 32,
                forall|p: int|
                    0 <= p < 2048 ==> #[trigger] screen@[p] == (before[p] != (covers(
                        sprite,
                        x as int,
                        y as int,
                        p,
                    ) && drawn_before(x as int, y as int, row as int, col as int, p))),
                collision <==> exists|p: int|
                    0 <= p < 2048 && #[trigger] before[p] && covers(sprite, x as int, y as int, p)
                        && drawn_before(x as int, y as int, row as int, col as int, p),
            decreases 8 - col,
        {
            let gx: usize = (x as usize + col) % 64;
            let at: usize = gy * 64 + gx;
            let ghost earlier = collision;
            proof {
                assert forall|p: int| 0 <= p < 2048 implies (sprite_row_at(y as int, p) == row
                    && sprite_col_at(x as int, p) == col) == (p == at) by {
                    lemma_landing_pixel(x as int, y as int, row as int, col as int, p);
                }
            }
            if (bits >> (7 - col as u8)) & 1 == 1 {
                if screen[at] {
                    collision = true;
                }
                screen[at] = !screen[at];
            }
            col = col + 1;
            proof {
                assert forall|p: int| 0 <= p < 2048 implies drawn_before(
                    x as int,
                    y as int,
                    row as int,
                    col as int,
                    p,
                ) == (drawn_before(x as int, y as int, row as int, col - 1, p) || p == at) by {}
                if collision {
                    if !earlier {
                        assert(before[at as int] && covers(sprite, x as int, y as int, at as int));
                    } else {
                        let w = choose|p: int|
                            0 <= p < 2048 && #[trigger] before[p] && covers(
                                sprite,
                                x as int,
                                y as int,
                                p,
                            ) && drawn_before(x as int, y as int, row as int, col - 1, p);
                        assert(before[w] && drawn_before(
                            x as int,
                            y as int,
                            row as int,
                            col as int,
                            w,
                        ));
                    }
                }
            }
        }
        proof {
            assert forall|p: int| 0 <= p < 2048 implies drawn_before(
                x as int,
                y as int,
                row as int,
                8,
                p,
            ) == drawn_before(x as int, y as int, row + 1, 0, p) || !covers(
                sprite,
                x as int,
                y as int,
                p,
            ) by {}
        }
        row = row + 1;
    }
    proof {
        assert forall|p: int| 0 <= p < 2048 && covers(
            sprite,
            x as int,
            y as int,
            p,
        ) implies drawn_before(x as int, y as int, rows as int, 0, p) by {}
        assert(screen@ =~= blit(before, sprite, x as int, y as int));
    }
    collision
}

} // verus!
