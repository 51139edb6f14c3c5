//! The 64x32 monochrome display.
//!
//! Cells are held in row order, cell (x, y) at index `x + 64 * y`, each 0 (off)
//! or 1 (on). A sprite is up to fifteen rows of eight pixels, most significant
//! bit leftmost; drawing it flips the cells under its set bits, and pixels
//! that pass the right or bottom edge come back in at the left or top.

use vstd::prelude::*;

verus! {

/// The number of columns.
pub const WIDTH: usize = 64;

/// The number of rows.
pub const HEIGHT: usize = 32;

/// The number of cells.
pub const CELLS: usize = 2048;

/// The index of the cell in column `x` of row `y`.
pub fn xy_to_1d(x: u8, y: u8) -> (index: usize)
    ensures
        index == x + y * WIDTH,
{
    let x: usize = x as usize;
    let y: usize = y as usize;

    x + y * WIDTH
}

/// The pixel in column `col` (0 leftmost) of a sprite row: 1 if set, else 0.
pub open spec fn sprite_bit(row: u8, col: int) -> u8 {
    (row >> ((7 - col) as u8)) & 1
}

/// The index of the cell in which the point (x, y) falls once both
/// coordinates are wrapped onto the display.
pub open spec fn wrapped_index(x: int, y: int) -> int {
    x % (WIDTH as int) + (y % (HEIGHT as int)) * WIDTH
}

/// The sprite pixel that lands on cell `p` when `sprite` is drawn with its
/// top left corner at (x, y); 0 for a cell that the sprite does not cover.
pub open spec fn sprite_bit_at(x: u8, y: u8, sprite: Seq<u8>, p: int) -> u8 {
    let col = (p % (WIDTH as int) - x) % (WIDTH as int);
    let row = (p / (WIDTH as int) - y) % (HEIGHT as int);
    if col < 8 && row < sprite.len() {
        sprite_bit(sprite[row], col)
    } else {
        0
    }
}

/// The cells after `sprite` is drawn at (x, y): every cell is XORed with the
/// sprite pixel that lands on it.
pub open spec fn draw_sprite(cells: Seq<u8>, x: u8, y: u8, sprite: Seq<u8>) -> Seq<u8> {
    Seq::new(cells.len(), |p: int| cells[p] ^ sprite_bit_at(x, y, sprite, p))
}

/// Whether drawing `sprite` at (x, y) turns a cell off: some set sprite pixel
/// lands on a cell that is on.
pub open spec fn sprite_collides(cells: Seq<u8>, x: u8, y: u8, sprite: Seq<u8>) -> bool {
    exists|p: int|
        0 <= p < cells.len() && cells[p] == 1 && #[trigger] sprite_bit_at(x, y, sprite, p) == 1
}

/// A display with every cell off.
pub open spec fn blank() -> Seq<u8> {
    Seq::new(CELLS as nat, |p: int| 0u8)
}

/// Whether `cells` is a display: 2048 cells, each 0 or 1.
pub open spec fn is_display(cells: Seq<u8>) -> bool {
    &&& cells.len() == CELLS
    &&& forall|p: int| 0 <= p < CELLS ==> #[trigger] cells[p] <= 1
}

/// The frame as RGBA bytes, four to a cell: white where the cell is on, black
/// where it is off, and opaque everywhere.
pub open spec fn rgba_of(cells: Seq<u8>) -> Seq<u8> {
    Seq::new(
        cells.len() * 4,
        |k: int|
            if k % 4 == 3 || cells[k / 4] > 0 {
                255u8
            } else {
                0u8
            },
    )
}

/// The frame as RGBA bytes for a host to show.
pub fn rgba_frame(framebuffer: &[u8; 2048]) -> (frame: Vec<u8>)
    ensures
        frame@ == rgba_of(framebuffer@),
{
    let mut frame: Vec<u8> = Vec::new();
    let mut p: usize = 0;
    while p < 2048
        invariant
            p <= 2048,
            frame@ == rgba_of(framebuffer@.take(p as int)),
        decreases 2048 - p,
    {
        let color: u8 = if framebuffer[p] > 0 {
            255
        } else {
            0
        };
        frame.push(color);
        frame.push(color);
        frame.push(color);
        frame.push(255);
        p += 1;
        assert(frame@ =~= rgba_of(framebuffer@.take(p as int)));
    }
    assert(framebuffer@.take(2048) == framebuffer@);
    frame
}

/// The sprite pixel that has landed on cell `p` once the rows above `row` and
/// the first `col` pixels of row `row` are drawn.
spec fn sprite_bit_upto(x: u8, y: u8, sprite: Seq<u8>, row: int, col: int, p: int) -> u8 {
    let c = (p % (WIDTH as int) - x) % (WIDTH as int);
    let r = (p / (WIDTH as int) - y) % (HEIGHT as int);
    if c < 8 && r < sprite.len() && (r < row || (r == row && c < col)) {
        sprite_bit(sprite[r], c)
    } else {
        0
    }
}

/// The cells once the rows above `row` and the first `col` pixels of row `row`
/// are drawn.
spec fn drawn_upto(cells: Seq<u8>, x: u8, y: u8, sprite: Seq<u8>, row: int, col: int) -> Seq<u8> {
    Seq::new(cells.len(), |p: int| cells[p] ^ sprite_bit_upto(x, y, sprite, row, col, p))
}

/// Whether a pixel drawn so far has landed on a cell that was on.
spec fn collides_upto(cells: Seq<u8>, x: u8, y: u8, sprite: Seq<u8>, row: int, col: int) -> bool {
    exists|p: int|
        0 <= p < cells.len() && cells[p] == 1 && #[trigger] sprite_bit_upto(
            x,
            y,
            sprite,
            row,
            col,
            p,
        ) == 1
}

proof fn lemma_xor_bits(a: u8, b: u8)
    ensures
        a ^ 0 == a,
        a <= 1 && b <= 1 ==> a ^ b <= 1,
{
    assert(a ^ 0 == a) by (bit_vector);
    assert(a <= 1 && b <= 1 ==> a ^ b <= 1) by (bit_vector);
}

/// A sprite pixel is 0 or 1.
pub proof fn lemma_sprite_bit_range(row: u8, col: int)
    requires
        0 <= col < 8,
    ensures
        sprite_bit(row, col) <= 1,
{
    let s = (7 - col) as u8;
    assert((row >> s) & 1 <= 1) by (bit_vector);
}

/// A column `a` lies `c` cells right of `x`, wrapping, exactly when it is the
/// wrapped column of `x + c`.
proof fn lemma_wrap_col(a: int, x: int, c: int)
    requires
        0 <= a < 64,
        0 <= c < 64,
    ensures
        ((a - x) % 64 == c) <==> (a == (x + c) % 64),
{
}

/// A row `a` lies `r` cells below `y`, wrapping, exactly when it is the
/// wrapped row of `y + r`.
proof fn lemma_wrap_row(a: int, y: int, r: int)
    requires
        0 <= a < 32,
        0 <= r < 32,
    ensures
        ((a - y) % 32 == r) <==> (a == (y + r) % 32),
{
}

/// A cell index is its column plus 64 times its row.
proof fn lemma_index_parts(p: int, col: int, row: int)
    requires
        0 <= col < 64,
        0 <= row < 32,
    ensures
        (p == col + row * 64) <==> (0 <= p < 2048 && p % 64 == col && p / 64 == row),
{
}

/// Drawing one more pixel changes what has landed on exactly one cell.
proof fn lemma_upto_step(x: u8, y: u8, sprite: Seq<u8>, row: int, col: int, p: int)
    requires
        0 <= row < sprite.len() <= HEIGHT,
        0 <= col < 8,
        0 <= p < CELLS,
    ensures
        0 <= wrapped_index(x + col, y + row) < CELLS,
        sprite_bit_upto(x, y, sprite, row, col, wrapped_index(x + col, y + row)) == 0,
        sprite_bit_upto(x, y, sprite, row, col + 1, p) == if p == wrapped_index(
            x + col,
            y + row,
        ) {
            sprite_bit(sprite[row], col)
        } else {
            sprite_bit_upto(x, y, sprite, row, col, p)
        },
{
    let target = wrapped_index(x + col, y + row);
    lemma_index_parts(target, (x + col) % 64, (y + row) % 32);
    lemma_index_parts(p, (x + col) % 64, (y + row) % 32);
    lemma_wrap_col(p % 64, x as int, col);
    lemma_wrap_row(p / 64, y as int, row);
    lemma_wrap_col(target % 64, x as int, col);
    lemma_wrap_row(target / 64, y as int, row);
}

/// Before anything is drawn the cells are as they were, and nothing has
/// collided.
proof fn lemma_upto_start(cells: Seq<u8>, x: u8, y: u8, sprite: Seq<u8>)
    ensures
        drawn_upto(cells, x, y, sprite, 0, 0) == cells,
        !collides_upto(cells, x, y, sprite, 0, 0),
{
    assert forall|p: int| 0 <= p < cells.len() implies cells[p] ^ sprite_bit_upto(
        x,
        y,
        sprite,
        0,
        0,
        p,
    ) == cells[p] by {
        lemma_xor_bits(cells[p], 0);
    }
    assert(drawn_upto(cells, x, y, sprite, 0, 0) =~= cells);
}

/// One more pixel flips the cell it lands on if it is set, and collides if
/// that cell was on.
proof fn lemma_upto_pixel(cells: Seq<u8>, x: u8, y: u8, sprite: Seq<u8>, row: int, col: int)
    requires
        cells.len() == CELLS,
        0 <= row < sprite.len() <= HEIGHT,
        0 <= col < 8,
    ensures
        ({
            let target = wrapped_index(x + col, y + row);
            let bit = sprite_bit(sprite[row], col);
            let before = drawn_upto(cells, x, y, sprite, row, col);
            &&& 0 <= target < CELLS
            &&& before[target] == cells[target]
            &&& drawn_upto(cells, x, y, sprite, row, col + 1) == before.update(
                target,
                cells[target] ^ bit,
            )
            &&& collides_upto(cells, x, y, sprite, row, col + 1) == (collides_upto(
                cells,
                x,
                y,
                sprite,
                row,
                col,
            ) || (cells[target] == 1 && bit == 1))
        }),
{
    let target = wrapped_index(x + col, y + row);
    let bit = sprite_bit(sprite[row], col);
    let before = drawn_upto(cells, x, y, sprite, row, col);
    let after = drawn_upto(cells, x, y, sprite, row, col + 1);
    lemma_upto_step(x, y, sprite, row, col, target);
    lemma_xor_bits(cells[target], 0);
    assert forall|p: int| 0 <= p < CELLS implies after[p] == before.update(
        target,
        cells[target] ^ bit,
    )[p] by {
        lemma_upto_step(x, y, sprite, row, col, p);
    }
    assert(after =~= before.update(target, cells[target] ^ bit));
    if collides_upto(cells, x, y, sprite, row, col) {
        let w = choose|p: int|
            0 <= p < cells.len() && cells[p] == 1 && #[trigger] sprite_bit_upto(
                x,
                y,
                sprite,
                row,
                col,
                p,
            ) == 1;
        lemma_upto_step(x, y, sprite, row, col, w);
        assert(sprite_bit_upto(x, y, sprite, row, col + 1, w) == 1);
    }
    if cells[target] == 1 && bit == 1 {
        assert(sprite_bit_upto(x, y, sprite, row, col + 1, target) == 1);
    }
    if collides_upto(cells, x, y, sprite, row, col + 1) {
        let w = choose|p: int|
            0 <= p < cells.len() && cells[p] == 1 && #[trigger] sprite_bit_upto(
                x,
                y,
                sprite,
                row,
                col + 1,
                p,
            ) == 1;
        lemma_upto_step(x, y, sprite, row, col, w);
        if w != target {
            assert(sprite_bit_upto(x, y, sprite, row, col, w) == 1);
        }
    }
}

/// A row is done after its eighth pixel.
proof fn lemma_upto_row_end(cells: Seq<u8>, x: u8, y: u8, sprite: Seq<u8>, row: int)
    ensures
        drawn_upto(cells, x, y, sprite, row, 8) == drawn_upto(cells, x, y, sprite, row + 1, 0),
        collides_upto(cells, x, y, sprite, row, 8) == collides_upto(
            cells,
            x,
            y,
            sprite,
            row + 1,
            0,
        ),
{
    assert forall|p: int|
        sprite_bit_upto(x, y, sprite, row, 8, p) == sprite_bit_upto(
            x,
            y,
            sprite,
            row + 1,
            0,
            p,
        ) by {}
    assert(drawn_upto(cells, x, y, sprite, row, 8) =~= drawn_upto(
        cells,
        x,
        y,
        sprite,
        row + 1,
        0,
    ));
    if collides_upto(cells, x, y, sprite, row, 8) {
        let w = choose|p: int|
            0 <= p < cells.len() && cells[p] == 1 && #[trigger] sprite_bit_upto(
                x,
                y,
                sprite,
                row,
                8,
                p,
            ) == 1;
        assert(sprite_bit_upto(x, y, sprite, row + 1, 0, w) == 1);
    }
    if collides_upto(cells, x, y, sprite, row + 1, 0) {
        let w = choose|p: int|
            0 <= p < cells.len() && cells[p] == 1 && #[trigger] sprite_bit_upto(
                x,
                y,
                sprite,
                row + 1,
                0,
                p,
            ) == 1;
        assert(sprite_bit_upto(x, y, sprite, row, 8, w) == 1);
    }
}

/// The sprite is drawn after its last row.
proof fn lemma_upto_end(cells: Seq<u8>, x: u8, y: u8, sprite: Seq<u8>)
    ensures
        drawn_upto(cells, x, y, sprite, sprite.len() as int, 0) == draw_sprite(cells, x, y, sprite),
        collides_upto(cells, x, y, sprite, sprite.len() as int, 0) == sprite_collides(
            cells,
            x,
            y,
            sprite,
        ),
{
    let rows = sprite.len() as int;
    assert forall|p: int|
        sprite_bit_upto(x, y, sprite, rows, 0, p) == sprite_bit_at(x, y, sprite, p) by {}
    assert(drawn_upto(cells, x, y, sprite, rows, 0) =~= draw_sprite(cells, x, y, sprite));
    if collides_upto(cells, x, y, sprite, rows, 0) {
        let w = choose|p: int|
            0 <= p < cells.len() && cells[p] == 1 && #[trigger] sprite_bit_upto(
                x,
                y,
                sprite,
                rows,
                0,
                p,
            ) == 1;
        assert(sprite_bit_at(x, y, sprite, w) == 1);
    }
    if sprite_collides(cells, x, y, sprite) {
        let w = choose|p: int|
            0 <= p < cells.len() && cells[p] == 1 && #[trigger] sprite_bit_at(x, y, sprite, p)
                == 1;
        assert(sprite_bit_upto(x, y, sprite, rows, 0, w) == 1);
    }
}

/// Whatever is drawn on a display, it stays a display.
pub proof fn lemma_draw_keeps_display(cells: Seq<u8>, x: u8, y: u8, sprite: Seq<u8>)
    requires
        is_display(cells),
    ensures
        is_display(draw_sprite(cells, x, y, sprite)),
{
    let drawn = draw_sprite(cells, x, y, sprite);
    assert forall|p: int| 0 <= p < CELLS implies #[trigger] drawn[p] <= 1 by {
        let col = (p % (WIDTH as int) - x) % (WIDTH as int);
        let row = (p / (WIDTH as int) - y) % (HEIGHT as int);
        if col < 8 && row < sprite.len() {
            lemma_sprite_bit_range(sprite[row], col);
        }
        lemma_xor_bits(cells[p], sprite_bit_at(x, y, sprite, p));
    }
}

/// Sprite coordinates wrap: the pixel in column `col` of row `row` of a
/// sprite drawn at (x, y) lands on the cell in column `(x + col) % 64` of
/// row `(y + row) % 32`, and flips it exactly when the pixel is set.
pub proof fn lemma_draw_wraps(cells: Seq<u8>, x: u8, y: u8, sprite: Seq<u8>, row: int, col: int)
    requires
        cells.len() == CELLS,
        0 <= row < sprite.len() <= HEIGHT,
        0 <= col < 8,
    ensures
        ({
            let target = (x + col) % (WIDTH as int) + ((y + row) % (HEIGHT as int)) * WIDTH;
            &&& 0 <= target < CELLS
            &&& sprite_bit_at(x, y, sprite, target) == sprite_bit(sprite[row], col)
            &&& draw_sprite(cells, x, y, sprite)[target] == cells[target] ^ sprite_bit(
                sprite[row],
                col,
            )
        }),
{
    let target = wrapped_index(x + col, y + row);
    lemma_index_parts(target, (x + col) % 64, (y + row) % 32);
    lemma_wrap_col(target % 64, x as int, col);
    lemma_wrap_row(target / 64, y as int, row);
}

/// Drawing a sprite twice at the same place leaves the display as it was.
pub proof fn lemma_draw_twice_restores(cells: Seq<u8>, x: u8, y: u8, sprite: Seq<u8>)
    ensures
        draw_sprite(draw_sprite(cells, x, y, sprite), x, y, sprite) == cells,
{
    let once = draw_sprite(cells, x, y, sprite);
    let twice = draw_sprite(once, x, y, sprite);
    assert forall|p: int| 0 <= p < cells.len() implies twice[p] == cells[p] by {
        let c = cells[p];
        let b = sprite_bit_at(x, y, sprite, p);
        assert((c ^ b) ^ b == c) by (bit_vector);
    }
    assert(twice =~= cells);
}

/// On a blank display a sprite shows as itself and collides with nothing;
/// drawn again it collides exactly if it has a set pixel.
pub proof fn lemma_draw_on_blank(x: u8, y: u8, sprite: Seq<u8>)
    ensures
        forall|p: int|
            0 <= p < CELLS ==> #[trigger] draw_sprite(blank(), x, y, sprite)[p] == sprite_bit_at(
                x,
                y,
                sprite,
                p,
            ),
        !sprite_collides(blank(), x, y, sprite),
        sprite_collides(draw_sprite(blank(), x, y, sprite), x, y, sprite) <==> exists|p: int|
            0 <= p < CELLS && #[trigger] sprite_bit_at(x, y, sprite, p) == 1,
{
    let drawn = draw_sprite(blank(), x, y, sprite);
    assert forall|p: int| 0 <= p < CELLS implies #[trigger] drawn[p] == sprite_bit_at(
        x,
        y,
        sprite,
        p,
    ) by {
        let b = sprite_bit_at(x, y, sprite, p);
        assert(0u8 ^ b == b) by (bit_vector);
    }
    if sprite_collides(drawn, x, y, sprite) {
        let w = choose|p: int|
            0 <= p < drawn.len() && drawn[p] == 1 && #[trigger] sprite_bit_at(x, y, sprite, p)
                == 1;
        assert(0 <= w < CELLS && sprite_bit_at(x, y, sprite, w) == 1);
    }
    if exists|p: int| 0 <= p < CELLS && #[trigger] sprite_bit_at(x, y, sprite, p) == 1 {
        let w = choose|p: int| 0 <= p < CELLS && #[trigger] sprite_bit_at(x, y, sprite, p) == 1;
        assert(drawn[w] == 1 && sprite_bit_at(x, y, sprite, w) == 1);
    }
}

/// The display.
pub struct Framebuffer {
    cells: [u8; 2048],
}

impl View for Framebuffer {
    type V = Seq<u8>;

    closed spec fn view(&self) -> Seq<u8> {
        self.cells@
    }
}

impl Framebuffer {
    #[verifier::type_invariant]
    pub closed spec fn inv(&self) -> bool {
        forall|p: int| 0 <= p < CELLS ==> #[trigger] self.cells[p] <= 1
    }

    /// What the invariant says of the cells.
    pub proof fn lemma_inv(&self)
        requires
            self.inv(),
        ensures
            is_display(self@),
    {
    }

    /// A display with every cell off.
    pub fn new() -> (framebuffer: Framebuffer)
        ensures
            framebuffer@ == blank(),
    {
        Framebuffer { cells: [0; 2048] }
    }

    /// Turns every cell off.
    pub fn clear(&mut self)
        ensures
            final(self)@ == blank(),
    {
        self.cells = [0; 2048];
    }

    /// The cells in row order, for the host to show.
    pub fn cells(&self) -> (cells: &[u8; 2048])
        ensures
            cells@ == self@,
            is_display(cells@),
    {
        proof {
            use_type_invariant(self);
        }
        &self.cells
    }

    /// Draws `sprite` with its top left corner at (x, y), both wrapped onto
    /// the display, and says whether that turned a cell off.
    pub fn draw_sprite(&mut self, x: u8, y: u8, sprite: &[u8]) -> (collision: bool)
        requires
            sprite@.len() <= HEIGHT,
        ensures
            final(self)@ == draw_sprite(old(self)@, x, y, sprite@),
            collision == sprite_collides(old(self)@, x, y, sprite@),
    {
        let rows: usize = sprite.len();
        let mut collision: bool = false;
        let mut row: usize = 0;
        proof {
            lemma_upto_start(self@, x, y, sprite@);
        }
        while row < rows
            invariant
                row <= rows,
                rows == sprite@.len(),
                rows <= HEIGHT,
                self@ == drawn_upto(old(self)@, x, y, sprite@, row as int, 0),
                collision == collides_upto(old(self)@, x, y, sprite@, row as int, 0),
            decreases rows - row,
        {
            let sprite_byte: u8 = sprite[row];
            let mut col: u8 = 0;
            while col < 8
                invariant
                    col <= 8,
                    row < rows,
                    rows == sprite@.len(),
                    rows <= HEIGHT,
                    sprite_byte == sprite@[row as int],
                    self@ == drawn_upto(old(self)@, x, y, sprite@, row as int, col as int),
                    collision == collides_upto(old(self)@, x, y, sprite@, row as int, col as int),
                decreases 8 - col,
            {
                let x_pos: usize = (x as usize + col as usize) % 64;
                let y_pos: usize = (y as usize + row) % 32;
                let pixel_idx: usize = xy_to_1d(x_pos as u8, y_pos as u8);
                let sprite_pixel: u8 = (sprite_byte >> (7 - col)) & 1;
                proof {
                    use_type_invariant(&*self);
                    lemma_upto_pixel(old(self)@, x, y, sprite@, row as int, col as int);
                    lemma_sprite_bit_range(sprite_byte, col as int);
                    lemma_xor_bits(self.cells[pixel_idx as int], sprite_pixel);
                }
                let current_pixel: u8 = self.cells[pixel_idx];
                if sprite_pixel == 1 && current_pixel == 1 {
                    collision = true;
                }
                self.cells[pixel_idx] = current_pixel ^ sprite_pixel;
                col += 1;
            }
            proof {
                lemma_upto_row_end(old(self)@, x, y, sprite@, row as int);
            }
            row += 1;
        }
        proof {
            lemma_upto_end(old(self)@, x, y, sprite@);
        }
        collision
    }
}

} // verus!
