//! The 64x32 one-byte-per-pixel display and sprite drawing.

use vstd::prelude::*;

verus! {

/// Pixels in a display row.
pub const SCREEN_WIDTH: usize = 64;

/// Rows of the display.
pub const SCREEN_HEIGHT: usize = 32;

/// Cells in video memory: one byte for each pixel, row after row.
pub const VIDEO_SIZE: usize = 2048;

/// Video memory: cell `row * 64 + column` is 1 where the pixel is lit, else 0.
pub type VideoMemory = [u8; VIDEO_SIZE];

/// Whether column `col` of a sprite row is lit. Column 0 is the leftmost pixel
/// and the most significant bit.
pub open spec fn sprite_bit(row: u8, col: int) -> bool {
    0 <= col < 8 && row & (0x80u8 >> (col as u8)) != 0
}

/// The cell that pixel (`row`, `col`) of a sprite drawn at (`x`, `y`) lands
/// on. Nothing wraps: a pixel past the right edge lands in the next row, and
/// one past the last row lands outside video memory.
pub open spec fn target_cell(x: int, y: int, row: int, col: int) -> int {
    (y + row) * 64 + x + col
}

/// Whether a sprite drawn at (`x`, `y`) has a lit pixel on cell `cell`.
pub open spec fn sprite_covers(sprite: Seq<u8>, x: int, y: int, cell: int) -> bool {
    let d = cell - (y * 64 + x);
    d >= 0 && d / 64 < sprite.len() && d % 64 < 8 && sprite_bit(sprite[d / 64], d % 64)
}

/// Whether every lit pixel of a sprite drawn at (`x`, `y`) lands inside video
/// memory.
pub open spec fn sprite_fits(sprite: Seq<u8>, x: int, y: int) -> bool {
    forall|row: int, col: int|
        0 <= row < sprite.len() && 0 <= col < 8 && sprite_bit(#[trigger] sprite[row], col)
            ==> #[trigger] target_cell(x, y, row, col) < 2048
}

/// Video memory after a sprite was drawn at (`x`, `y`): the cells under its
/// lit pixels are flipped, the others are unchanged.
pub open spec fn drawn(video: Seq<u8>, sprite: Seq<u8>, x: int, y: int) -> Seq<u8> {
    Seq::new(
        2048,
        |cell: int|
            if sprite_covers(sprite, x, y, cell) {
                video[cell] ^ 1
            } else {
                video[cell]
            },
    )
}

/// Whether a sprite drawn at (`x`, `y`) has a lit pixel on a cell that is
/// already lit.
pub open spec fn collides(video: Seq<u8>, sprite: Seq<u8>, x: int, y: int) -> bool {
    exists|cell: int| 0 <= cell < 2048 && sprite_covers(sprite, x, y, cell) && video[cell] == 1
}

/// Whether every cell holds 0 or 1.
pub open spec fn is_bitmap(video: Seq<u8>) -> bool {
    forall|cell: int| 0 <= cell < video.len() ==> #[trigger] video[cell] <= 1
}

/// The `height` sprite rows that start at address `start` of `memory`.
pub open spec fn sprite_at(memory: Seq<u8>, start: int, height: int) -> Seq<u8> {
    Seq::new(height as nat, |row: int| memory[start + row])
}

/// Whether a sprite drawn at (`x`, `y`) has a lit pixel on cell `cell` that
/// comes before pixel (`row`, `col`) in drawing order: rows from the top, and
/// each row from the left.
pub open spec fn covers_before(
    sprite: Seq<u8>,
    x: int,
    y: int,
    cell: int,
    row: int,
    col: int,
) -> bool {
    let d = cell - (y * 64 + x);
    sprite_covers(sprite, x, y, cell) && (d / 64 < row || (d / 64 == row && d % 64 < col))
}

/// Tells whether every lit pixel of the sprite at `memory[start..start + height]`,
/// drawn at (`x`, `y`), lands inside video memory.
pub fn sprite_in_bounds(memory: &[u8; 4096], start: usize, height: usize, x: usize, y: usize) -> (fits:
    bool)
    requires
        start + height <= 4096,
        height < 16,
        x < 64,
        y < 32,
    ensures
        fits == sprite_fits(sprite_at(memory@, start as int, height as int), x as int, y as int),
{
    let ghost sprite = sprite_at(memory@, start as int, height as int);
    let mut row: usize = 0;
    while row < height
        invariant
            0 <= row <= height,
            start + height <= 4096,
            height < 16,
            x < 64,
            y < 32,
            sprite == sprite_at(memory@, start as int, height as int),
            forall|r: int, c: int|
                0 <= r < row && 0 <= c < 8 && sprite_bit(#[trigger] sprite[r], c)
                    ==> #[trigger] target_cell(x as int, y as int, r, c) < 2048,
        decreases height - row,
    {
        let sprite_byte = memory[start + row];
        let mut col: u8 = 0;
        while col < 8
            invariant
                0 <= col <= 8,
                0 <= row < height,
                height < 16,
                x < 64,
                y < 32,
                sprite == sprite_at(memory@, start as int, height as int),
                sprite_byte == sprite[row as int],
                forall|r: int, c: int|
                    0 <= r < row && 0 <= c < 8 && sprite_bit(#[trigger] sprite[r], c)
                        ==> #[trigger] target_cell(x as int, y as int, r, c) < 2048,
                forall|c: int|
                    0 <= c < col && sprite_bit(sprite_byte, c) ==> #[trigger] target_cell(
                        x as int,
                        y as int,
                        row as int,
                        c,
                    ) < 2048,
            decreases 8 - col,
        {
            if sprite_byte & (0x80u8 >> col) != 0 {
                let cell = (y + row) * 64 + x + col as usize;
                if cell >= 2048 {
                    assert(sprite_bit(sprite[row as int], col as int));
                    assert(target_cell(x as int, y as int, row as int, col as int) >= 2048);
                    return false;
                }
            }
            col = col + 1;
        }
        row = row + 1;
    }
    true
}

/// Draws the sprite at `memory[start..start + height]` onto `video` at
/// (`x`, `y`) by flipping the cells under its lit pixels, and tells whether a
/// lit cell was flipped off.
pub fn draw_sprite(
    video: &mut VideoMemory,
    memory: &[u8; 4096],
    start: usize,
    height: usize,
    x: usize,
    y: usize,
) -> (collision: bool)
    requires
        start + height <= 4096,
        height < 16,
        x < 64,
        y < 32,
        sprite_fits(sprite_at(memory@, start as int, height as int), x as int, y as int),
    ensures
        final(video)@ == drawn(
            old(video)@,
            sprite_at(memory@, start as int, height as int),
            x as int,
            y as int,
        ),
        collision == collides(
            old(video)@,
            sprite_at(memory@, start as int, height as int),
            x as int,
            y as int,
        ),
{
    let ghost sprite = sprite_at(memory@, start as int, height as int);
    let ghost before = video@;
    let ghost xi = x as int;
    let ghost yi = y as int;
    let mut collision = false;
    let mut row: usize = 0;
    while row < height
        invariant
            0 <= row <= height,
            start + height <= 4096,
            height < 16,
            x < 64,
            y < 32,
            xi == x,
            yi == y,
            before.len() == 2048,
            sprite == sprite_at(memory@, start as int, height as int),
            sprite_fits(sprite, xi, yi),
            forall|cell: int|
                0 <= cell < 2048 ==> #[trigger] video@[cell] == (if covers_before(
                    sprite,
                    xi,
                    yi,
                    cell,
                    row as int,
                    0,
                ) {
                    before[cell] ^ 1
                } else {
                    before[cell]
                }),
            collision <==> exists|cell: int|
                0 <= cell < 2048 && covers_before(sprite, xi, yi, cell, row as int, 0)
                    && #[trigger] before[cell] == 1,
        decreases height - row,
    {
        let sprite_byte = memory[start + row];
        let mut col: u8 = 0;
        while col < 8
            invariant
                0 <= col <= 8,
                0 <= row < height,
                height < 16,
                x < 64,
                y < 32,
                xi == x,
                yi == y,
                before.len() == 2048,
                sprite.len() == height,
                sprite_byte == sprite[row as int],
                sprite_fits(sprite, xi, yi),
                forall|cell: int|
                    0 <= cell < 2048 ==> #[trigger] video@[cell] == (if covers_before(
                        sprite,
                        xi,
                        yi,
                        cell,
                        row as int,
                        col as int,
                    ) {
                        before[cell] ^ 1
                    } else {
                        before[cell]
                    }),
                collision <==> exists|cell: int|
                    0 <= cell < 2048 && covers_before(sprite, xi, yi, cell, row as int, col as int)
                        && #[trigger] before[cell] == 1,
            decreases 8 - col,
        {
            let ghost target = target_cell(xi, yi, row as int, col as int);
            let ghost was = collision;
            proof {
                assert forall|cell: int| 0 <= cell < 2048 implies covers_before(
                    sprite,
                    xi,
                    yi,
                    cell,
                    row as int,
                    col as int + 1,
                ) == (covers_before(sprite, xi, yi, cell, row as int, col as int) || (cell
                    == target && sprite_bit(sprite_byte, col as int))) by {}
            }
            if sprite_byte & (0x80u8 >> col) != 0 {
                assert(sprite_bit(sprite[row as int], col as int));
                assert(target < 2048);
                let cell = (y + row) * 64 + x + col as usize;
                assert(cell == target);
                assert(!covers_before(sprite, xi, yi, target, row as int, col as int));
                if video[cell] == 1 {
                    collision = true;
                }
                video[cell] = video[cell] ^ 1;
                assert(collision <==> was || before[target] == 1);
            }
            col = col + 1;
        }
        proof {
            assert forall|cell: int| 0 <= cell < 2048 implies covers_before(
                sprite,
                xi,
                yi,
                cell,
                row as int,
                8,
            ) == covers_before(sprite, xi, yi, cell, row as int + 1, 0) by {}
        }
        row = row + 1;
    }
    proof {
        assert forall|cell: int| 0 <= cell < 2048 implies covers_before(
            sprite,
            xi,
            yi,
            cell,
            height as int,
            0,
        ) == sprite_covers(sprite, xi, yi, cell) by {}
        assert(video@ =~= drawn(before, sprite, xi, yi));
    }
    collision
}

/// Turns every pixel off.
pub fn clear_video(video: &mut VideoMemory)
    ensures
        final(video)@ == Seq::new(2048, |cell: int| 0u8),
{
    let mut cell: usize = 0;
    while cell < 2048
        invariant
            0 <= cell <= 2048,
            forall|c: int| 0 <= c < cell ==> video@[c] == 0,
        decreases 2048 - cell,
    {
        video[cell] = 0;
        cell = cell + 1;
    }
    assert(video@ =~= Seq::new(2048, |cell: int| 0u8));
}

/// The display as grey levels: 255 for a lit pixel, 0 for a dark one.
pub open spec fn grey_levels_of(video: Seq<u8>) -> Seq<u8> {
    Seq::new(
        video.len(),
        |cell: int|
            if video[cell] != 0 {
                255u8
            } else {
                0u8
            },
    )
}

/// Turns video memory into the grey levels that a greyscale texture takes:
/// one byte for each pixel, 255 where it is lit and 0 where it is dark. On a
/// display whose cells are 0 or 1 that is each cell times 255.
pub fn grey_levels(video: &VideoMemory) -> (pixels: Vec<u8>)
    ensures
        pixels@ == grey_levels_of(video@),
        is_bitmap(video@) ==> forall|cell: int|
            0 <= cell < 2048 ==> #[trigger] pixels@[cell] == 255 * video@[cell],
{
    let mut pixels: Vec<u8> = Vec::new();
    let mut cell: usize = 0;
    while cell < 2048
        invariant
            0 <= cell <= 2048,
            pixels@.len() == cell,
            forall|c: int|
                0 <= c < cell ==> #[trigger] pixels@[c] == (if video@[c] != 0 {
                    255u8
                } else {
                    0u8
                }),
        decreases 2048 - cell,
    {
        pixels.push(
            if video[cell] != 0 {
                255
            } else {
                0
            },
        );
        cell = cell + 1;
    }
    assert(pixels@ =~= grey_levels_of(video@));
    pixels
}

} // verus!
