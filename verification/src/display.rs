use vstd::prelude::*;

verus! {

/// Pixels in one row of the screen.
pub const SCREEN_WIDTH: usize = 64;

/// Rows of the screen.
pub const SCREEN_HEIGHT: usize = 32;

/// Bytes in one packed row: eight pixels to the byte, leftmost pixel in the
/// highest bit.
pub const ROW_BYTES: usize = 8;

/// Whether pixel `k` of a byte, counted from the left, is lit.
pub open spec fn lit(byte: u8, k: u8) -> bool {
    byte & (0x80u8 >> k) != 0
}

/// Whether the pixel in column `column` of a packed row is lit.
pub open spec fn pixel(row: Seq<u8>, column: int) -> bool {
    lit(row[column / 8], (column % 8) as u8)
}

/// Whether a sprite byte drawn with its leftmost pixel in column `x`
/// (wrapping at the right edge) has a lit pixel in column `column`.
pub open spec fn sprite_pixel(x: u8, pixels: u8, column: int) -> bool {
    let k = (column - x) % 64;
    k < 8 && lit(pixels, k as u8)
}

/// The part of a sprite byte that lands in the byte that holds column `x`.
pub open spec fn sprite_head(x: u8, pixels: u8) -> u8 {
    pixels >> (x % 8)
}

/// The part of a sprite byte that spills into the next byte of the row.
pub open spec fn sprite_tail(x: u8, pixels: u8) -> u8 {
    if x % 8 == 0 {
        0
    } else {
        pixels << (8 - x % 8)
    }
}

/// Index of the byte that holds column `x`, columns wrapping at 64.
pub open spec fn head_index(x: u8) -> int {
    ((x / 8) % 8) as int
}

/// Index of the byte after the one that holds column `x`, wrapping.
pub open spec fn tail_index(x: u8) -> int {
    (head_index(x) + 1) % 8
}

/// A packed row after a sprite byte has been XORed onto it at column `x`.
pub open spec fn blit_row(row: Seq<u8>, x: u8, pixels: u8) -> Seq<u8> {
    row.update(head_index(x), row[head_index(x)] ^ sprite_head(x, pixels)).update(
        tail_index(x),
        row[tail_index(x)] ^ sprite_tail(x, pixels),
    )
}

/// Whether drawing the sprite byte turns off a pixel that was lit.
pub open spec fn blit_collides(row: Seq<u8>, x: u8, pixels: u8) -> bool {
    ||| row[head_index(x)] & sprite_head(x, pixels) != 0
    ||| row[tail_index(x)] & sprite_tail(x, pixels) != 0
}

/// How the pixels of a byte behave under the operations of a blit.
proof fn lemma_lit(under: u8, pixels: u8, shift: u8, j: u8)
    requires
        shift < 8,
        j < 8,
    ensures
        lit(under ^ pixels, j) == (lit(under, j) != lit(pixels, j)),
        lit(pixels >> shift, j) == (j >= shift && lit(pixels, (j - shift) as u8)),
        shift > 0 ==> lit(pixels << (8 - shift), j) == (j < shift && lit(
            pixels,
            (8 + j - shift) as u8,
        )),
        lit(0, j) == false,
{
    assert((under ^ pixels) & (0x80u8 >> j) != 0 <==> ((under & (0x80u8 >> j) != 0) != (pixels & (
        0x80u8 >> j) != 0))) by (bit_vector)
        requires
            j < 8,
    ;
    assert((pixels >> shift) & (0x80u8 >> j) != 0 <==> (j >= shift && pixels & (0x80u8 >> ((j
        - shift) as u8)) != 0)) by (bit_vector)
        requires
            j < 8,
            shift < 8,
    ;
    assert(shift > 0 ==> ((pixels << ((8 - shift) as u8)) & (0x80u8 >> j) != 0 <==> (j < shift
        && pixels & (0x80u8 >> ((8 + j - shift) as u8)) != 0))) by (bit_vector)
        requires
            j < 8,
            shift < 8,
    ;
    assert(0u8 & (0x80u8 >> j) == 0) by (bit_vector);
}

/// Two bytes share a lit pixel exactly when their bitwise AND is not zero.
proof fn lemma_common_pixel(a: u8, b: u8)
    ensures
        a & b != 0 <==> exists|j: u8| j < 8 && lit(a, j) && lit(b, j),
{
    assert(a & b != 0 <==> (a & b) & 0x80 != 0 || (a & b) & 0x40 != 0 || (a & b) & 0x20 != 0 || (a
        & b) & 0x10 != 0 || (a & b) & 0x08 != 0 || (a & b) & 0x04 != 0 || (a & b) & 0x02 != 0 || (a
        & b) & 0x01 != 0) by (bit_vector);
    assert forall|j: u8| j < 8 implies (#[trigger] lit(a, j) && lit(b, j) <==> (a & b) & (0x80u8
        >> j) != 0) by {
        assert((a & (0x80u8 >> j) != 0 && b & (0x80u8 >> j) != 0) <==> (a & b) & (0x80u8 >> j)
            != 0) by (bit_vector)
            requires
                j < 8,
        ;
    }
    assert(0x80u8 >> 0u8 == 0x80 && 0x80u8 >> 1u8 == 0x40 && 0x80u8 >> 2u8 == 0x20 && 0x80u8
        >> 3u8 == 0x10 && 0x80u8 >> 4u8 == 0x08 && 0x80u8 >> 5u8 == 0x04 && 0x80u8 >> 6u8 == 0x02
        && 0x80u8 >> 7u8 == 0x01) by (bit_vector);
    if a & b != 0 {
        let j: u8 = if (a & b) & 0x80 != 0 {
            0
        } else if (a & b) & 0x40 != 0 {
            1
        } else if (a & b) & 0x20 != 0 {
            2
        } else if (a & b) & 0x10 != 0 {
            3
        } else if (a & b) & 0x08 != 0 {
            4
        } else if (a & b) & 0x04 != 0 {
            5
        } else if (a & b) & 0x02 != 0 {
            6
        } else {
            7
        };
        assert(lit(a, j) && lit(b, j));
    }
}

/// A value that is `remainder` beyond a multiple of 64 leaves `remainder`.
proof fn lemma_wrap(value: int, turns: int, remainder: int)
    requires
        value == 64 * turns + remainder,
        0 <= remainder < 64,
    ensures
        value % 64 == remainder,
{
}

/// How far pixel `j` of byte `index` lies to the right of column `x`,
/// wrapping at 64.
proof fn lemma_offset(x: u8, index: int, j: int)
    requires
        0 <= index < 8,
        0 <= j < 8,
    ensures
        index == head_index(x) && j >= x % 8 ==> (index * 8 + j - x) % 64 == j - x % 8,
        index == head_index(x) && j < x % 8 ==> (index * 8 + j - x) % 64 >= 8,
        index == tail_index(x) ==> (index * 8 + j - x) % 64 == 8 + j - x % 8,
        index != head_index(x) && index != tail_index(x) ==> (index * 8 + j - x) % 64 >= 8,
{
    let shift = x % 8;
    let first = (x / 8) % 8;
    let turns = x / 64;
    assert(x == 64 * turns + 8 * first + shift);
    let value = index * 8 + j - x;
    if index == first {
        if j >= shift {
            lemma_wrap(value, -turns, j - shift);
        } else {
            lemma_wrap(value, -turns - 1, 64 + j - shift);
        }
    } else if index == (first + 1) % 8 {
        if first == 7 {
            lemma_wrap(value, -turns - 1, 8 + j - shift);
        } else {
            lemma_wrap(value, -turns, 8 + j - shift);
        }
    } else if index > first {
        lemma_wrap(value, -turns, 8 * (index - first) + j - shift);
    } else {
        lemma_wrap(value, -turns - 1, 64 + 8 * (index - first) + j - shift);
    }
}

/// Which sprite pixel, if any, lands in pixel `j` of byte `index` of a row.
proof fn lemma_sprite_pixel(x: u8, pixels: u8, index: int, j: u8)
    requires
        0 <= index < 8,
        j < 8,
    ensures
        index == head_index(x) ==> sprite_pixel(x, pixels, index * 8 + j) == lit(
            sprite_head(x, pixels),
            j,
        ),
        index == tail_index(x) ==> sprite_pixel(x, pixels, index * 8 + j) == lit(
            sprite_tail(x, pixels),
            j,
        ),
        index != head_index(x) && index != tail_index(x) ==> !sprite_pixel(
            x,
            pixels,
            index * 8 + j,
        ),
{
    let shift = (x % 8) as u8;
    lemma_lit(0, pixels, shift, j);
    lemma_offset(x, index, j as int);
}

/// A blit seen pixel by pixel: each pixel of the row flips exactly where
/// the sprite byte, laid down from column `x` and wrapping at the right
/// edge, has a lit pixel; and the blit collides exactly when some pixel was
/// lit both in the row and in the sprite.
pub proof fn lemma_blit_pixels(row: Seq<u8>, x: u8, pixels: u8)
    requires
        row.len() == ROW_BYTES,
    ensures
        blit_row(row, x, pixels).len() == ROW_BYTES,
        forall|column: int|
            0 <= column < 64 ==> pixel(#[trigger] blit_row(row, x, pixels), column) == (pixel(
                row,
                column,
            ) != sprite_pixel(x, pixels, column)),
        blit_collides(row, x, pixels) <==> exists|column: int|
            0 <= column < 64 && pixel(row, column) && sprite_pixel(x, pixels, column),
{
    let after = blit_row(row, x, pixels);
    let head = sprite_head(x, pixels);
    let tail = sprite_tail(x, pixels);
    let first = head_index(x);
    let second = tail_index(x);
    assert forall|column: int| 0 <= column < 64 implies pixel(after, column) == (pixel(
        row,
        column,
    ) != sprite_pixel(x, pixels, column)) by {
        let index = column / 8;
        let j = (column % 8) as u8;
        lemma_sprite_pixel(x, pixels, index, j);
        lemma_lit(row[index], head, 0, j);
        lemma_lit(row[index], tail, 0, j);
    }
    lemma_common_pixel(row[first], head);
    lemma_common_pixel(row[second], tail);
    if row[first] & head != 0 {
        let j = choose|j: u8| j < 8 && lit(row[first], j) && lit(head, j);
        lemma_sprite_pixel(x, pixels, first, j);
        assert(pixel(row, first * 8 + j) && sprite_pixel(x, pixels, first * 8 + j));
    }
    if row[second] & tail != 0 {
        let j = choose|j: u8| j < 8 && lit(row[second], j) && lit(tail, j);
        lemma_sprite_pixel(x, pixels, second, j);
        assert(pixel(row, second * 8 + j) && sprite_pixel(x, pixels, second * 8 + j));
    }
    if exists|column: int| 0 <= column < 64 && pixel(row, column) && sprite_pixel(x, pixels, column) {
        let column = choose|column: int|
            0 <= column < 64 && pixel(row, column) && sprite_pixel(x, pixels, column);
        let index = column / 8;
        let j = (column % 8) as u8;
        lemma_sprite_pixel(x, pixels, index, j);
        assert(lit(row[index], j));
    }
}

/// Drawing the same sprite byte twice in the same place restores the row.
/// The second blit collides exactly when the first one lit a pixel, which
/// on a blank row means whenever the sprite byte is not blank itself.
pub proof fn lemma_blit_twice(row: Seq<u8>, x: u8, pixels: u8)
    requires
        row.len() == ROW_BYTES,
    ensures
        blit_row(blit_row(row, x, pixels), x, pixels) == row,
        blit_collides(blit_row(row, x, pixels), x, pixels) <==> exists|column: int|
            0 <= column < 64 && !pixel(row, column) && sprite_pixel(x, pixels, column),
        (forall|i: int| 0 <= i < 8 ==> row[i] == 0) && pixels != 0 ==> blit_collides(
            blit_row(row, x, pixels),
            x,
            pixels,
        ),
{
    let once = blit_row(row, x, pixels);
    let head = sprite_head(x, pixels);
    let tail = sprite_tail(x, pixels);
    let first = head_index(x);
    let second = tail_index(x);
    let shift = (x % 8) as u8;
    let under_head = row[first];
    let under_tail = row[second];
    assert((under_head ^ head) ^ head == under_head) by (bit_vector);
    assert((under_tail ^ tail) ^ tail == under_tail) by (bit_vector);
    assert(blit_row(once, x, pixels) =~= row);
    lemma_blit_pixels(row, x, pixels);
    lemma_blit_pixels(once, x, pixels);
    if exists|column: int| 0 <= column < 64 && pixel(once, column) && sprite_pixel(x, pixels, column) {
        let column = choose|column: int|
            0 <= column < 64 && pixel(once, column) && sprite_pixel(x, pixels, column);
        assert(!pixel(row, column) && sprite_pixel(x, pixels, column));
    }
    if exists|column: int| 0 <= column < 64 && !pixel(row, column) && sprite_pixel(x, pixels, column) {
        let column = choose|column: int|
            0 <= column < 64 && !pixel(row, column) && sprite_pixel(x, pixels, column);
        assert(pixel(once, column) && sprite_pixel(x, pixels, column));
    }
    if (forall|i: int| 0 <= i < 8 ==> row[i] == 0) && pixels != 0 {
        assert(shift == 0 ==> pixels >> shift != 0) by (bit_vector)
            requires
                pixels != 0,
        ;
        assert(0 < shift < 8 ==> pixels >> shift != 0 || pixels << ((8 - shift) as u8) != 0)
            by (bit_vector)
            requires
                pixels != 0,
        ;
        assert((0u8 ^ head) & head != 0 || head == 0) by (bit_vector);
        assert((0u8 ^ tail) & tail != 0 || tail == 0) by (bit_vector);
    }
}

/// XORs one sprite byte onto a packed row with its leftmost pixel in column
/// `x`, wrapping at the right edge, and reports whether a lit pixel went
/// dark.
pub fn proccess_graphics_row(input: &mut Vec<u8>, x: u8, pixels: u8) -> (collision: bool)
    requires
        old(input).len() == ROW_BYTES,
    ensures
        final(input)@ == blit_row(old(input)@, x, pixels),
        collision == blit_collides(old(input)@, x, pixels),
{
    let shift = x & 7;
    let first = ((x >> 3) & 7) as usize;
    let second = (first + 1) % ROW_BYTES;
    proof {
        assert(x & 7 == x % 8) by (bit_vector);
        assert((x >> 3) & 7 == (x / 8) % 8) by (bit_vector);
    }
    let head = pixels >> shift;
    let tail = if shift == 0 {
        0
    } else {
        pixels << (8 - shift)
    };
    let under_head = input[first];
    let under_tail = input[second];
    input[first] = under_head ^ head;
    input[second] = under_tail ^ tail;
    (under_head & head) != 0 || (under_tail & tail) != 0
}

/// The packed rows of a frame buffer, top row first.
pub open spec fn frame_rows(frame: Seq<Vec<u8>>) -> Seq<Seq<u8>> {
    Seq::new(frame.len(), |r: int| frame[r]@)
}

/// Whether a frame has the screen's shape: `SCREEN_HEIGHT` rows of
/// `ROW_BYTES` bytes.
pub open spec fn frame_shaped(rows: Seq<Seq<u8>>) -> bool {
    &&& rows.len() == SCREEN_HEIGHT
    &&& forall|r: int| 0 <= r < rows.len() ==> (#[trigger] rows[r]).len() == ROW_BYTES
}

/// The screen row that receives line `line` of a sprite drawn from row `y`,
/// wrapping at the bottom edge.
pub open spec fn target_row(y: u8, line: int) -> int {
    (y + line) % 32
}

/// The frame after the lines of `sprite` have been drawn one below the
/// other, the first on row `y` with its leftmost pixel in column `x`.
pub open spec fn draw(rows: Seq<Seq<u8>>, x: u8, y: u8, sprite: Seq<u8>) -> Seq<Seq<u8>>
    decreases sprite.len(),
{
    if sprite.len() == 0 {
        rows
    } else {
        let above = draw(rows, x, y, sprite.drop_last());
        let r = target_row(y, sprite.len() - 1);
        above.update(r, blit_row(above[r], x, sprite.last()))
    }
}

/// Whether drawing `sprite` turns off a pixel that was lit.
pub open spec fn draw_collides(rows: Seq<Seq<u8>>, x: u8, y: u8, sprite: Seq<u8>) -> bool
    decreases sprite.len(),
{
    if sprite.len() == 0 {
        false
    } else {
        let above = draw(rows, x, y, sprite.drop_last());
        let r = target_row(y, sprite.len() - 1);
        draw_collides(rows, x, y, sprite.drop_last()) || blit_collides(
            above[r],
            x,
            sprite.last(),
        )
    }
}

/// Drawing keeps the shape of the frame.
pub proof fn lemma_draw_shaped(rows: Seq<Seq<u8>>, x: u8, y: u8, sprite: Seq<u8>)
    requires
        frame_shaped(rows),
    ensures
        frame_shaped(draw(rows, x, y, sprite)),
    decreases sprite.len(),
{
    if sprite.len() > 0 {
        lemma_draw_shaped(rows, x, y, sprite.drop_last());
    }
}

/// The line of a sprite drawn from row `y` that lands on screen row `r`,
/// if the sprite is tall enough.
pub open spec fn source_line(y: u8, r: int) -> int {
    (r - y) % 32
}

/// `source_line` undoes `target_row` for the first 32 lines.
proof fn lemma_source_line(y: u8, line: int, r: int)
    requires
        0 <= line < 32,
        0 <= r < 32,
    ensures
        0 <= source_line(y, r) < 32,
        r == target_row(y, line) <==> source_line(y, r) == line,
{
}

/// A sprite of at most 32 lines touches each row at most once, so the
/// frame can be read off row by row: a row under line `k` of the sprite is
/// blitted with that line, every other row is as it was. The drawing
/// collides exactly when one of those blits does.
pub proof fn lemma_draw_rows(rows: Seq<Seq<u8>>, x: u8, y: u8, sprite: Seq<u8>)
    requires
        frame_shaped(rows),
        sprite.len() <= SCREEN_HEIGHT,
    ensures
        frame_shaped(draw(rows, x, y, sprite)),
        forall|r: int|
            0 <= r < 32 ==> #[trigger] draw(rows, x, y, sprite)[r] == (if source_line(y, r)
                < sprite.len() {
                blit_row(rows[r], x, sprite[source_line(y, r)])
            } else {
                rows[r]
            }),
        draw_collides(rows, x, y, sprite) <==> exists|line: int|
            0 <= line < sprite.len() && #[trigger] blit_collides(
                rows[target_row(y, line)],
                x,
                sprite[line],
            ),
    decreases sprite.len(),
{
    lemma_draw_shaped(rows, x, y, sprite);
    if sprite.len() > 0 {
        let shorter = sprite.drop_last();
        let last = sprite.len() - 1;
        let above = draw(rows, x, y, shorter);
        let bottom = target_row(y, last);
        lemma_draw_rows(rows, x, y, shorter);
        lemma_source_line(y, last, bottom);
        assert(above[bottom] == rows[bottom]);
        assert forall|r: int| 0 <= r < 32 implies #[trigger] draw(rows, x, y, sprite)[r] == (
        if source_line(y, r) < sprite.len() {
            blit_row(rows[r], x, sprite[source_line(y, r)])
        } else {
            rows[r]
        }) by {
            lemma_source_line(y, last, r);
        }
        if draw_collides(rows, x, y, shorter) {
            let line = choose|line: int|
                0 <= line < shorter.len() && #[trigger] blit_collides(
                    rows[target_row(y, line)],
                    x,
                    shorter[line],
                );
            assert(blit_collides(rows[target_row(y, line)], x, sprite[line]));
        }
        if blit_collides(above[bottom], x, sprite.last()) {
            assert(blit_collides(rows[target_row(y, last)], x, sprite[last]));
        }
        if exists|line: int|
            0 <= line < sprite.len() && #[trigger] blit_collides(
                rows[target_row(y, line)],
                x,
                sprite[line],
            ) {
            let line = choose|line: int|
                0 <= line < sprite.len() && #[trigger] blit_collides(
                    rows[target_row(y, line)],
                    x,
                    sprite[line],
                );
            if line < last {
                assert(blit_collides(rows[target_row(y, line)], x, shorter[line]));
            }
        }
    }
}

/// Drawing the same sprite twice in the same place restores the frame. The
/// second drawing collides exactly when one of its lines does on the row
/// that the first drawing left, which on a blank frame means whenever the
/// sprite has a lit pixel.
pub proof fn lemma_draw_twice(rows: Seq<Seq<u8>>, x: u8, y: u8, sprite: Seq<u8>)
    requires
        frame_shaped(rows),
        sprite.len() <= SCREEN_HEIGHT,
    ensures
        draw(draw(rows, x, y, sprite), x, y, sprite) == rows,
        draw_collides(draw(rows, x, y, sprite), x, y, sprite) <==> exists|line: int|
            0 <= line < sprite.len() && #[trigger] blit_collides(
                blit_row(rows[target_row(y, line)], x, sprite[line]),
                x,
                sprite[line],
            ),
        rows == Seq::new(32, |r: int| Seq::new(8, |c: int| 0u8)) && (exists|line: int|
            0 <= line < sprite.len() && sprite[line] != 0) ==> draw_collides(
            draw(rows, x, y, sprite),
            x,
            y,
            sprite,
        ),
{
    let once = draw(rows, x, y, sprite);
    let twice = draw(once, x, y, sprite);
    lemma_draw_rows(rows, x, y, sprite);
    lemma_draw_rows(once, x, y, sprite);
    assert forall|r: int| 0 <= r < 32 implies twice[r] == rows[r] by {
        if source_line(y, r) < sprite.len() {
            lemma_blit_twice(rows[r], x, sprite[source_line(y, r)]);
        }
    }
    assert(twice =~= rows);
    assert forall|line: int| 0 <= line < sprite.len() implies once[target_row(y, line)]
        == blit_row(rows[target_row(y, line)], x, #[trigger] sprite[line]) by {
        lemma_source_line(y, line, target_row(y, line));
    }
    if draw_collides(once, x, y, sprite) {
        let line = choose|line: int|
            0 <= line < sprite.len() && #[trigger] blit_collides(
                once[target_row(y, line)],
                x,
                sprite[line],
            );
        assert(blit_collides(blit_row(rows[target_row(y, line)], x, sprite[line]), x, sprite[line]));
    }
    if exists|line: int|
        0 <= line < sprite.len() && #[trigger] blit_collides(
            blit_row(rows[target_row(y, line)], x, sprite[line]),
            x,
            sprite[line],
        ) {
        let line = choose|line: int|
            0 <= line < sprite.len() && #[trigger] blit_collides(
                blit_row(rows[target_row(y, line)], x, sprite[line]),
                x,
                sprite[line],
            );
        assert(blit_collides(once[target_row(y, line)], x, sprite[line]));
    }
    if rows == Seq::new(32, |r: int| Seq::new(8, |c: int| 0u8)) && (exists|line: int|
        0 <= line < sprite.len() && sprite[line] != 0) {
        let line = choose|line: int| 0 <= line < sprite.len() && sprite[line] != 0;
        lemma_blit_twice(rows[target_row(y, line)], x, sprite[line]);
        assert(blit_collides(once[target_row(y, line)], x, sprite[line]));
    }
}

/// One more line of a sprite: what `draw` and `draw_collides` add for it.
proof fn lemma_draw_line(rows: Seq<Seq<u8>>, x: u8, y: u8, sprite: Seq<u8>, line: int)
    requires
        0 <= line < sprite.len(),
    ensures
        draw(rows, x, y, sprite.take(line + 1)) == draw(rows, x, y, sprite.take(line)).update(
            target_row(y, line),
            blit_row(draw(rows, x, y, sprite.take(line))[target_row(y, line)], x, sprite[line]),
        ),
        draw_collides(rows, x, y, sprite.take(line + 1)) == (draw_collides(
            rows,
            x,
            y,
            sprite.take(line),
        ) || blit_collides(
            draw(rows, x, y, sprite.take(line))[target_row(y, line)],
            x,
            sprite[line],
        )),
{
    let longer = sprite.take(line + 1);
    assert(longer.drop_last() =~= sprite.take(line));
    assert(longer.last() == sprite[line]);
    assert(longer.len() - 1 == line);
}

/// The row index that the drawing loop computes without overflow.
proof fn lemma_target_row(y: u8, line: usize)
    ensures
        (y % 32 + line % 32) % 32 == target_row(y, line as int),
{
}

/// Replacing one row of a frame buffer replaces that row of its view.
proof fn lemma_row_replaced(before: Seq<Vec<u8>>, after: Seq<Vec<u8>>, r: int, row: Seq<u8>)
    requires
        0 <= r < before.len(),
        after.len() == before.len(),
        after[r]@ == row,
        forall|i: int| 0 <= i < before.len() && i != r ==> after[i] == before[i],
    ensures
        frame_rows(after) == frame_rows(before).update(r, row),
{
    assert(frame_rows(after) =~= frame_rows(before).update(r, row));
}

/// Draws a sprite onto the frame: line `k` of it goes to row `y + k`,
/// wrapping at the bottom edge, with its leftmost pixel in column `x`,
/// wrapping at the right edge. Reports whether a lit pixel went dark.
pub fn draw_sprite(frame: &mut Vec<Vec<u8>>, x: u8, y: u8, sprite: &[u8]) -> (collision: bool)
    requires
        frame_shaped(frame_rows(old(frame)@)),
    ensures
        frame_rows(final(frame)@) == draw(frame_rows(old(frame)@), x, y, sprite@),
        collision == draw_collides(frame_rows(old(frame)@), x, y, sprite@),
{
    let ghost before = frame_rows(frame@);
    let mut collision = false;
    let mut line: usize = 0;
    proof {
        assert(sprite@.take(0) =~= Seq::<u8>::empty());
    }
    while line < sprite.len()
        invariant
            line <= sprite.len(),
            frame@.len() == SCREEN_HEIGHT,
            frame_shaped(before),
            frame_rows(frame@) == draw(before, x, y, sprite@.take(line as int)),
            collision == draw_collides(before, x, y, sprite@.take(line as int)),
        decreases sprite.len() - line,
    {
        let r = ((y as usize) % SCREEN_HEIGHT + line % SCREEN_HEIGHT) % SCREEN_HEIGHT;
        let ghost above = frame@;
        proof {
            lemma_target_row(y, line);
            lemma_draw_shaped(before, x, y, sprite@.take(line as int));
            lemma_draw_line(before, x, y, sprite@, line as int);
            assert(frame_rows(above)[r as int] == above[r as int]@);
        }
        let hit = proccess_graphics_row(&mut frame[r], x, sprite[line]);
        proof {
            lemma_row_replaced(
                above,
                frame@,
                r as int,
                blit_row(above[r as int]@, x, sprite@[line as int]),
            );
        }
        collision = collision || hit;
        line += 1;
    }
    proof {
        assert(sprite@.take(line as int) =~= sprite@);
    }
    collision
}

/// The frame as one run of bytes, row after row.
pub open spec fn flat_frame(rows: Seq<Seq<u8>>) -> Seq<u8> {
    Seq::new(rows.len() * ROW_BYTES as nat, |i: int| rows[i / 8][i % 8])
}

/// One channel of an RGBA image of packed pixels: four bytes to the pixel,
/// a lit pixel white, a dark one black, every pixel opaque.
pub open spec fn rgba_channel(packed: Seq<u8>, i: int) -> u8 {
    if i % 4 == 3 || lit(packed[i / 32], ((i / 4) % 8) as u8) {
        255
    } else {
        0
    }
}

/// The RGBA image of packed pixels.
pub open spec fn rgba_image(packed: Seq<u8>) -> Seq<u8> {
    Seq::new(packed.len() * 32, |i: int| rgba_channel(packed, i))
}

/// Where channel `channel` of pixel `k` of byte `index` stands in the image.
proof fn lemma_channel_position(index: int, k: int, channel: int)
    requires
        0 <= index,
        0 <= k < 8,
        0 <= channel < 4,
    ensures
        (index * 32 + k * 4 + channel) / 32 == index,
        ((index * 32 + k * 4 + channel) / 4) % 8 == k,
        (index * 32 + k * 4 + channel) % 4 == channel,
{
}

/// Expands packed pixels, leftmost pixel in the highest bit, into an RGBA
/// image: white where a pixel is lit, black where it is dark.
pub fn convert_graphics_buffer(buffer: &[u8]) -> (image: Vec<u8>)
    requires
        buffer.len() * 32 <= usize::MAX,
    ensures
        image@ == rgba_image(buffer@),
{
    let mut image: Vec<u8> = Vec::new();
    let mut index: usize = 0;
    while index < buffer.len()
        invariant
            index <= buffer.len(),
            buffer.len() * 32 <= usize::MAX,
            image.len() == index * 32,
            forall|i: int| 0 <= i < image.len() ==> image[i] == rgba_channel(buffer@, i),
        decreases buffer.len() - index,
    {
        let byte = buffer[index];
        let mut k: u8 = 0;
        while k < 8
            invariant
                k <= 8,
                index < buffer.len(),
                buffer.len() * 32 <= usize::MAX,
                byte == buffer@[index as int],
                image.len() == index * 32 + k * 4,
                forall|i: int| 0 <= i < image.len() ==> image[i] == rgba_channel(buffer@, i),
            decreases 8 - k,
        {
            let colour: u8 = if (byte >> (7 - k)) & 1 == 1 {
                255
            } else {
                0
            };
            proof {
                assert(((byte >> ((7 - k) as u8)) & 1 == 1) == (byte & (0x80u8 >> k) != 0))
                    by (bit_vector)
                    requires
                        k < 8,
                ;
                lemma_channel_position(index as int, k as int, 0);
                lemma_channel_position(index as int, k as int, 1);
                lemma_channel_position(index as int, k as int, 2);
                lemma_channel_position(index as int, k as int, 3);
            }
            image.push(colour);
            image.push(colour);
            image.push(colour);
            image.push(255);
            k += 1;
        }
        index += 1;
    }
    assert(image@ =~= rgba_image(buffer@));
    image
}

} // verus!
