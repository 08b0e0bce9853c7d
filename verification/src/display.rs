//! Sprite drawing: what it means to combine a sprite with the display by
//! exclusive-or, with wraparound at the edges, and the code that does it.

use vstd::prelude::*;

verus! {

/// The place value of a sprite column: column 0 is the byte's highest bit.
pub open spec fn column_weight(column: int) -> int {
    if column == 0 {
        128
    } else if column == 1 {
        64
    } else if column == 2 {
        32
    } else if column == 3 {
        16
    } else if column == 4 {
        8
    } else if column == 5 {
        4
    } else if column == 6 {
        2
    } else {
        1
    }
}

/// Whether the sprite has a pixel at bit `bit`, counting row after row, eight
/// bits a row, each row from its highest bit down.
pub open spec fn sprite_bit(sprite: Seq<u8>, bit: int) -> bool {
    (sprite[bit / 8] as int / column_weight(bit % 8)) % 2 == 1
}

/// The display cell on which bit `bit` of a sprite lands when the sprite is
/// drawn at column `left`, row `top`: positions past an edge come back in at
/// the opposite edge.
pub open spec fn target_cell(width: int, height: int, left: int, top: int, bit: int) -> int {
    ((top + bit / 8) % height) * width + (left + bit % 8) % width
}

/// A pixel after one exclusive-or with a set sprite bit.
pub open spec fn toggled(pixel: u8) -> u8 {
    if pixel == 0 {
        1
    } else {
        0
    }
}

/// The display after the first `bits` bits of `sprite` have been combined with
/// it by exclusive-or, and whether one of them turned a lit pixel off.
pub open spec fn paint(
    pixels: Seq<u8>,
    width: int,
    height: int,
    sprite: Seq<u8>,
    left: int,
    top: int,
    bits: nat,
) -> (Seq<u8>, bool)
    decreases bits,
{
    if bits == 0 {
        (pixels, false)
    } else {
        let bit = bits - 1;
        let (before, collided) = paint(pixels, width, height, sprite, left, top, bit as nat);
        if sprite_bit(sprite, bit) {
            let cell = target_cell(width, height, left, top, bit);
            (before.update(cell, toggled(before[cell])), collided || before[cell] != 0)
        } else {
            (before, collided)
        }
    }
}

/// How many of the first `bits` bits of `sprite` are set and land on `cell`.
pub open spec fn hits(
    width: int,
    height: int,
    sprite: Seq<u8>,
    left: int,
    top: int,
    bits: nat,
    cell: int,
) -> nat
    decreases bits,
{
    if bits == 0 {
        0
    } else {
        let bit = bits - 1;
        let earlier = hits(width, height, sprite, left, top, bit as nat, cell);
        if sprite_bit(sprite, bit) && target_cell(width, height, left, top, bit) == cell {
            earlier + 1
        } else {
            earlier
        }
    }
}

/// A cell of the display lies inside it.
pub proof fn lemma_target_cell_in_range(width: int, height: int, left: int, top: int, bit: int)
    requires
        width > 0,
        height > 0,
        left >= 0,
        top >= 0,
        bit >= 0,
    ensures
        0 <= target_cell(width, height, left, top, bit) < width * height,
{
    let row = (top + bit / 8) % height;
    let column = (left + bit % 8) % width;
    lemma_cell_in_range(width, height, row, column);
}

/// Row-major indexing stays inside the display.
pub proof fn lemma_cell_in_range(width: int, height: int, row: int, column: int)
    by (nonlinear_arith)
    requires
        0 <= row < height,
        0 <= column < width,
    ensures
        0 <= row * width + column < width * height,
{
}

/// Painting keeps the number of cells and keeps every cell 0 or 1.
pub proof fn lemma_paint_shape(
    pixels: Seq<u8>,
    width: int,
    height: int,
    sprite: Seq<u8>,
    left: int,
    top: int,
    bits: nat,
)
    requires
        width > 0,
        height > 0,
        left >= 0,
        top >= 0,
        pixels.len() == width * height,
    ensures
        paint(pixels, width, height, sprite, left, top, bits).0.len() == pixels.len(),
        (forall|cell: int| 0 <= cell < pixels.len() ==> pixels[cell] <= 1) ==> (forall|cell: int|
            0 <= cell < pixels.len() ==> paint(
                pixels,
                width,
                height,
                sprite,
                left,
                top,
                bits,
            ).0[cell] <= 1),
    decreases bits,
{
    if bits > 0 {
        let bit = bits - 1;
        lemma_paint_shape(pixels, width, height, sprite, left, top, bit as nat);
        lemma_target_cell_in_range(width, height, left, top, bit);
    }
}

/// What painting does to one cell: the cell is flipped once for every set
/// sprite bit that lands on it, and is left alone otherwise.
pub proof fn lemma_paint_cell(
    pixels: Seq<u8>,
    width: int,
    height: int,
    sprite: Seq<u8>,
    left: int,
    top: int,
    bits: nat,
    cell: int,
)
    requires
        width > 0,
        height > 0,
        left >= 0,
        top >= 0,
        pixels.len() == width * height,
        0 <= cell < pixels.len(),
        pixels[cell] <= 1,
    ensures
        paint(pixels, width, height, sprite, left, top, bits).0[cell] == (if hits(
            width,
            height,
            sprite,
            left,
            top,
            bits,
            cell,
        ) % 2 == 0 {
            pixels[cell]
        } else {
            toggled(pixels[cell])
        }),
    decreases bits,
{
    if bits > 0 {
        let bit = bits - 1;
        lemma_paint_cell(pixels, width, height, sprite, left, top, bit as nat, cell);
        lemma_paint_shape(pixels, width, height, sprite, left, top, bit as nat);
        lemma_target_cell_in_range(width, height, left, top, bit);
    }
}

/// Painting the same sprite at the same place a second time gives back the
/// display as it was before the first time.
pub proof fn lemma_paint_twice_restores(
    pixels: Seq<u8>,
    width: int,
    height: int,
    sprite: Seq<u8>,
    left: int,
    top: int,
    bits: nat,
)
    requires
        width > 0,
        height > 0,
        left >= 0,
        top >= 0,
        pixels.len() == width * height,
        forall|cell: int| 0 <= cell < pixels.len() ==> pixels[cell] <= 1,
    ensures
        paint(
            paint(pixels, width, height, sprite, left, top, bits).0,
            width,
            height,
            sprite,
            left,
            top,
            bits,
        ).0 == pixels,
{
    let once = paint(pixels, width, height, sprite, left, top, bits).0;
    let twice = paint(once, width, height, sprite, left, top, bits).0;
    lemma_paint_shape(pixels, width, height, sprite, left, top, bits);
    lemma_paint_shape(once, width, height, sprite, left, top, bits);
    assert forall|cell: int| 0 <= cell < pixels.len() implies twice[cell] == pixels[cell] by {
        lemma_paint_cell(pixels, width, height, sprite, left, top, bits, cell);
        lemma_paint_cell(once, width, height, sprite, left, top, bits, cell);
    }
    assert(twice =~= pixels);
}

/// When painting turned no lit pixel off, every set sprite bit found its cell
/// dark and left it lit, and no later bit touched that cell again.
pub proof fn lemma_paint_without_collision(
    pixels: Seq<u8>,
    width: int,
    height: int,
    sprite: Seq<u8>,
    left: int,
    top: int,
    bits: nat,
    bit: int,
)
    requires
        width > 0,
        height > 0,
        left >= 0,
        top >= 0,
        pixels.len() == width * height,
        forall|cell: int| 0 <= cell < pixels.len() ==> pixels[cell] <= 1,
        !paint(pixels, width, height, sprite, left, top, bits).1,
        0 <= bit < bits,
        sprite_bit(sprite, bit),
    ensures
        paint(pixels, width, height, sprite, left, top, bits).0[target_cell(
            width,
            height,
            left,
            top,
            bit,
        )] == 1,
    decreases bits,
{
    let last = bits - 1;
    let before = paint(pixels, width, height, sprite, left, top, last as nat);
    lemma_paint_shape(pixels, width, height, sprite, left, top, last as nat);
    lemma_target_cell_in_range(width, height, left, top, last);
    lemma_target_cell_in_range(width, height, left, top, bit);
    if bit < last {
        lemma_paint_without_collision(pixels, width, height, sprite, left, top, last as nat, bit);
    }
}

/// The first set bit of a sprite that is painted onto a display collides when
/// its cell is lit.
pub proof fn lemma_paint_collides(
    pixels: Seq<u8>,
    width: int,
    height: int,
    sprite: Seq<u8>,
    left: int,
    top: int,
    bits: nat,
    bit: int,
)
    requires
        width > 0,
        height > 0,
        left >= 0,
        top >= 0,
        pixels.len() == width * height,
        0 <= bit < bits,
        sprite_bit(sprite, bit),
        forall|earlier: int| 0 <= earlier < bit ==> !sprite_bit(sprite, earlier),
        pixels[target_cell(width, height, left, top, bit)] != 0,
    ensures
        paint(pixels, width, height, sprite, left, top, bits).1,
    decreases bits,
{
    let last = bits - 1;
    if bit < last {
        lemma_paint_collides(pixels, width, height, sprite, left, top, last as nat, bit);
    } else {
        lemma_paint_blank_prefix(pixels, width, height, sprite, left, top, last as nat);
    }
}

/// Bits that are not set leave the display alone.
pub proof fn lemma_paint_blank_prefix(
    pixels: Seq<u8>,
    width: int,
    height: int,
    sprite: Seq<u8>,
    left: int,
    top: int,
    bits: nat,
)
    requires
        forall|earlier: int| 0 <= earlier < bits ==> !sprite_bit(sprite, earlier),
    ensures
        paint(pixels, width, height, sprite, left, top, bits) == (pixels, false),
    decreases bits,
{
    if bits > 0 {
        lemma_paint_blank_prefix(pixels, width, height, sprite, left, top, (bits - 1) as nat);
    }
}

/// Combines the sprite of `rows` bytes at `start` of `memory` with the
/// display by exclusive-or, its top left corner at column `left`, row `top`,
/// and says whether a lit pixel went dark.
pub fn paint_sprite(
    display: &mut Vec<u8>,
    width: usize,
    height: usize,
    memory: &Vec<u8>,
    start: usize,
    rows: usize,
    left: usize,
    top: usize,
) -> (collided: bool)
    requires
        width > 0,
        height > 0,
        old(display).len() == width * height,
        start + rows <= memory.len(),
        rows < 256,
        left < 256,
        top < 256,
    ensures
        (final(display)@, collided) == paint(
            old(display)@,
            width as int,
            height as int,
            memory@.subrange(start as int, start + rows),
            left as int,
            top as int,
            (8 * rows) as nat,
        ),
{
    let ghost before = display@;
    let ghost sprite = memory@.subrange(start as int, start + rows);
    let mut collided = false;
    let mut row: usize = 0;
    while row < rows
        invariant
            row <= rows,
            rows < 256,
            left < 256,
            top < 256,
            width > 0,
            height > 0,
            display.len() == width * height,
            before.len() == width * height,
            start + rows <= memory.len(),
            sprite == memory@.subrange(start as int, start + rows),
            (display@, collided) == paint(
                before,
                width as int,
                height as int,
                sprite,
                left as int,
                top as int,
                (8 * row) as nat,
            ),
        decreases rows - row,
    {
        let byte = memory[start + row];
        let cell_row = (top + row) % height;
        let mut column: usize = 0;
        let mut weight: u8 = 128;
        while column < 8
            invariant
                column <= 8,
                row < rows,
                rows < 256,
                left < 256,
                top < 256,
                width > 0,
                height > 0,
                display.len() == width * height,
                before.len() == width * height,
                cell_row == (top + row) % (height as int),
                byte == sprite[row as int],
                column < 8 ==> weight == column_weight(column as int),
                (display@, collided) == paint(
                    before,
                    width as int,
                    height as int,
                    sprite,
                    left as int,
                    top as int,
                    (8 * row + column) as nat,
                ),
            decreases 8 - column,
        {
            let ghost bit = 8 * row + column;
            assert(bit / 8 == row && bit % 8 == column);
            if (byte / weight) % 2 == 1 {
                let cell_column = (left + column) % width;
                proof {
                    lemma_cell_in_range(
                        width as int,
                        height as int,
                        cell_row as int,
                        cell_column as int,
                    );
                }
                let cell = cell_row * width + cell_column;
                assert(cell == target_cell(
                    width as int,
                    height as int,
                    left as int,
                    top as int,
                    bit as int,
                ));
                if display[cell] != 0 {
                    collided = true;
                    display[cell] = 0;
                } else {
                    display[cell] = 1;
                }
            }
            column += 1;
            weight = weight / 2;
        }
        row += 1;
    }
    collided
}

} // verus!
