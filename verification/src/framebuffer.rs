//! Pixel addressing of the framebuffer square that the shell can draw.
use vstd::prelude::*;

verus! {

/// Side of the square, in pixels.
pub const SQUARE_SIDE: u32 = 100;
/// Pixels per framebuffer row assumed by the square (32-bit pixels).
pub const FB_ROW_PIXELS: u32 = 1024;

/// Index, in 32-bit pixels from the framebuffer start, of the `i`-th pixel
/// of the square whose top-left corner is `(x, y)`, row by row.
pub open spec fn square_pixel(x: u32, y: u32, i: int) -> int {
    (y + i / 100) * 1024 + x + i % 100
}

proof fn lemma_row_col(r: int, c: int)
    requires
        0 <= r,
        0 <= c < 100,
    ensures
        (r * 100 + c) / 100 == r,
        (r * 100 + c) % 100 == c,
{
    assert((r * 100 + c) / 100 == r && (r * 100 + c) % 100 == c) by (nonlinear_arith)
        requires
            0 <= r,
            0 <= c < 100,
    ;
}

/// The pixel indices that `draw_square` stores its colour to, in the order
/// it stores them: rows `y..y+100`, and in each row columns `x..x+100`.
pub fn draw_square(x: u32, y: u32) -> (pixels: Vec<u32>)
    requires
        (y + 99) * 1024 + x + 99 <= u32::MAX,
    ensures
        pixels@.len() == 10_000,
        forall|i: int| 0 <= i < 10_000 ==> pixels@[i] == square_pixel(x, y, i),
{
    let mut pixels: Vec<u32> = Vec::new();
    let mut row: u32 = 0;
    while row < SQUARE_SIDE
        invariant
            row <= 100,
            (y + 99) * 1024 + x + 99 <= u32::MAX,
            pixels@.len() == row * 100,
            forall|i: int| 0 <= i < pixels@.len() ==> pixels@[i] == square_pixel(x, y, i),
        decreases 100 - row,
    {
        let mut col: u32 = 0;
        while col < SQUARE_SIDE
            invariant
                row < 100,
                col <= 100,
                (y + 99) * 1024 + x + 99 <= u32::MAX,
                pixels@.len() == row * 100 + col,
                forall|i: int| 0 <= i < pixels@.len() ==> pixels@[i] == square_pixel(x, y, i),
            decreases 100 - col,
        {
            proof {
                lemma_row_col(row as int, col as int);
                assert((y + row) * 1024 <= (y + 99) * 1024) by (nonlinear_arith)
                    requires
                        row < 100,
                ;
            }
            let index: u32 = (y + row) * FB_ROW_PIXELS + x + col;
            pixels.push(index);
            col += 1;
        }
        row += 1;
    }
    pixels
}

/// The square starts at `(x, y)` in a framebuffer of 1024-pixel rows; the
/// next pixel in a row is one to the right, and the pixel a row further
/// down is 1024 pixels on.
pub proof fn lemma_square_layout(x: u32, y: u32, i: int)
    requires
        0 <= i < 10_000,
    ensures
        square_pixel(x, y, 0) == y * 1024 + x,
        (i + 1) % 100 != 0 && i + 1 < 10_000 ==> square_pixel(x, y, i + 1) == square_pixel(x, y, i)
            + 1,
        i + 100 < 10_000 ==> square_pixel(x, y, i + 100) == square_pixel(x, y, i) + 1024,
        y * 1024 + x <= square_pixel(x, y, i) <= (y + 99) * 1024 + x + 99,
{
    let r = i / 100;
    let c = i % 100;
    assert(i == r * 100 + c && 0 <= c < 100 && 0 <= r < 100) by (nonlinear_arith)
        requires
            0 <= i < 10_000,
            r == i / 100,
            c == i % 100,
    ;
    if (i + 1) % 100 != 0 && i + 1 < 10_000 {
        assert(c + 1 < 100) by (nonlinear_arith)
            requires
                i == r * 100 + c,
                0 <= c < 100,
                (i + 1) % 100 != 0,
        ;
        lemma_row_col(r, c + 1);
        assert(i + 1 == r * 100 + (c + 1));
    }
    if i + 100 < 10_000 {
        lemma_row_col(r + 1, c);
        assert(i + 100 == (r + 1) * 100 + c) by (nonlinear_arith)
            requires
                i == r * 100 + c,
        ;
    }
    assert(y * 1024 <= (y + r) * 1024 <= (y + 99) * 1024) by (nonlinear_arith)
        requires
            0 <= r < 100,
    ;
}

} // verus!
