use vstd::prelude::*;

use crate::hexagon::{hex_x, hex_y, mappable, row_start_x, row_start_y, GridId, HexId, HexState, Hexagon};
use crate::util::hex_count_spec;

verus! {

/// Number of storage rows of a board with `size` hexes per edge.
pub open spec fn rows_of(size: int) -> int {
    (size * 2 - 1) * 2 - 1
}

/// Largest size whose storage rows can be numbered in `u32`.
pub const MAX_BOARD_SIZE: u32 = 1073741824;

/// Whether storage slot `(x, y)` lies outside the hexagonal outline.
pub open spec fn dead(x: int, y: int, size: int, rows: int) -> bool {
    if y < size {
        x > y
    } else if y > rows - size {
        x >= rows - y
    } else {
        y % 2 == size % 2 && x == size - 1
    }
}

/// Whether storage slot `(x, y)` of a board of `size` holds a hex.
pub open spec fn live(x: int, y: int, size: int) -> bool {
    0 <= x < size && 0 <= y < rows_of(size) && !dead(x, y, size, rows_of(size))
}

/// The live columns among the first `n` of storage row `y`, in order.
pub open spec fn live_columns(y: int, size: int, n: int) -> Seq<int>
    decreases n,
{
    if n <= 0 {
        seq![]
    } else if live(n - 1, y, size) {
        live_columns(y, size, n - 1).push(n - 1)
    } else {
        live_columns(y, size, n - 1)
    }
}

/// `h` is the freshly built hex of storage slot `(x, y)`.
pub open spec fn is_cell(h: Hexagon, x: int, y: int, size: int) -> bool {
    &&& h.state == HexState::Free
    &&& h.grid_id.spec_x() == x
    &&& h.grid_id.spec_y() == y
    &&& h.hex_id.x == hex_x(x, y, size)
    &&& h.hex_id.y == hex_y(x, y, size)
}

/// `row` holds, in order, one fresh hex for each of the first `n` live
/// columns of storage row `y`.
pub open spec fn is_row_prefix(row: Seq<Hexagon>, y: int, size: int, n: int) -> bool {
    let cols = live_columns(y, size, n);
    &&& row.len() == cols.len()
    &&& forall|i: int| 0 <= i < row.len() ==> is_cell(#[trigger] row[i], cols[i], y, size)
}

/// `rows` is the board of `size`: one row per storage row, each holding
/// exactly the live cells of that row in column order.
pub open spec fn is_board_of(rows: Seq<Seq<Hexagon>>, size: int) -> bool {
    &&& rows.len() == rows_of(size)
    &&& forall|y: int| 0 <= y < rows.len() ==> is_row_prefix(#[trigger] rows[y], y, size, size)
}

/// Total number of cells held by the rows.
pub open spec fn cell_total(rows: Seq<Seq<Hexagon>>) -> int
    decreases rows.len(),
{
    if rows.len() == 0 {
        0
    } else {
        cell_total(rows.drop_last()) + rows.last().len()
    }
}

/// Why no board can be built for a size.
#[derive(Debug, Clone, Copy, PartialEq, Eq, Structural)]
pub enum BoardError {
    /// A board needs at least one hex per edge.
    InvalidSize,
    /// The storage rows of the board cannot be numbered in `u32`.
    TooLarge,
}

/// Whether storage slot `(x, y)` of a board with `row_count` rows is padding.
fn is_dead(x: u32, y: u32, size: u32, row_count: u32) -> (r: bool)
    requires
        1 <= size <= row_count,
        y < row_count,
    ensures
        r == dead(x as int, y as int, size as int, row_count as int),
{
    if y < size {
        return x > y;
    }
    if y > row_count - size {
        return x >= row_count - y;
    }
    let is_even = size % 2;
    if y % 2 == is_even {
        x == size - 1
    } else {
        false
    }
}

/// A hexagonal board, stored as rows of its live cells.
pub struct HexBoard {
    size: u32,
    hex_board: Vec<Vec<Hexagon>>,
}

impl View for HexBoard {
    type V = Seq<Seq<Hexagon>>;

    closed spec fn view(&self) -> Seq<Seq<Hexagon>> {
        self.hex_board@.map_values(|r: Vec<Hexagon>| r@)
    }
}

impl HexBoard {
    /// The number of hexes on a side.
    pub closed spec fn spec_size(&self) -> u32 {
        self.size
    }

    pub open spec fn wf(&self) -> bool {
        is_board_of(self@, self.spec_size() as int)
    }

    /// Builds the board with `size` hexes per edge.
    pub fn new(size: u32) -> (r: HexBoard)
        requires
            1 <= size,
            rows_of(size as int) <= u32::MAX,
        ensures
            r.wf(),
            r.spec_size() == size,
            cell_total(r@) == hex_count_spec(size as int),
    {
        let row_count: u32 = (size * 2 - 1) * 2 - 1;
        let mut hex_board: Vec<Vec<Hexagon>> = Vec::new();
        let mut y: u32 = 0;
        while y < row_count
            invariant
                1 <= size,
                row_count == rows_of(size as int),
                y <= row_count,
                hex_board@.len() == y,
                forall|j: int|
                    0 <= j < y ==> is_row_prefix(#[trigger] hex_board@[j]@, j, size as int, size as int),
            decreases row_count - y,
        {
            let mut hex_row: Vec<Hexagon> = Vec::new();
            let mut x: u32 = 0;
            while x < size
                invariant
                    1 <= size,
                    row_count == rows_of(size as int),
                    y < row_count,
                    x <= size,
                    is_row_prefix(hex_row@, y as int, size as int, x as int),
                decreases size - x,
            {
                if !is_dead(x, y, size, row_count) {
                    proof {
                        lemma_live_mappable(x as int, y as int, size as int);
                    }
                    let grid_id = GridId::new(x, y);
                    let hex_id: HexId = HexId::from_grid_id(x, y, size);
                    hex_row.push(Hexagon { grid_id, hex_id, state: HexState::Free });
                }
                x = x + 1;
            }
            hex_board.push(hex_row);
            y = y + 1;
        }
        let r = HexBoard { size, hex_board };
        assert(r@.len() == row_count);
        assert forall|j: int| 0 <= j < r@.len() implies is_row_prefix(
            #[trigger] r@[j],
            j,
            size as int,
            size as int,
        ) by {
            assert(r@[j] == hex_board@[j]@);
        }
        proof {
            lemma_board_cell_count(r@, size as int);
        }
        r
    }

    /// Builds the board with `size` hexes per edge, or says why it cannot.
    pub fn build(size: u32) -> (r: Result<HexBoard, BoardError>)
        ensures
            size == 0 <==> r matches Err(BoardError::InvalidSize),
            (size > 0 && rows_of(size as int) > u32::MAX) <==> r matches Err(BoardError::TooLarge),
            r matches Ok(b) ==> b.wf() && b.spec_size() == size && cell_total(b@) == hex_count_spec(
                size as int,
            ),
    {
        if size == 0 {
            Err(BoardError::InvalidSize)
        } else if size > MAX_BOARD_SIZE {
            Err(BoardError::TooLarge)
        } else {
            Ok(HexBoard::new(size))
        }
    }

    /// The number of hexes on a side.
    pub fn size(&self) -> (r: u32)
        ensures
            r == self.spec_size(),
    {
        self.size
    }

    /// The rows of live cells, top to bottom.
    pub fn rows(&self) -> (r: &Vec<Vec<Hexagon>>)
        ensures
            r@.len() == self@.len(),
            forall|y: int| 0 <= y < r@.len() ==> #[trigger] r@[y]@ == self@[y],
    {
        &self.hex_board
    }

    /// Renders the board: each cell through `render_hexagon`, each row
    /// wrapped in a row element, the rows in a grid element.
    pub fn to_html<F: Fn(&Hexagon) -> String>(&self, render_hexagon: F) -> (r: String)
        requires
            forall|h: &Hexagon| render_hexagon.requires((h,)),
        ensures
            exists|cells: Seq<Seq<Seq<char>>>|
                #[trigger] rendered_with(render_hexagon, self@, cells) && r@ == board_html(cells),
    {
        let mut board_html_out = String::from_str("<div class=\"hex_grid\">");
        let ghost mut cells: Seq<Seq<Seq<char>>> = seq![];
        let mut y: usize = 0;
        while y < self.hex_board.len()
            invariant
                forall|h: &Hexagon| render_hexagon.requires((h,)),
                y <= self@.len(),
                self.hex_board@.len() == self@.len(),
                rendered_with(render_hexagon, self@.subrange(0, y as int), cells),
                board_html_out@ == "<div class=\"hex_grid\">"@ + rows_html(cells),
            decreases self@.len() - y,
        {
            let row = &self.hex_board[y];
            assert(row@ == self@[y as int]);
            let mut row_html_out = String::from_str("<div class=\"hex_row\">");
            let ghost mut row_cells: Seq<Seq<char>> = seq![];
            let mut i: usize = 0;
            while i < row.len()
                invariant
                    forall|h: &Hexagon| render_hexagon.requires((h,)),
                    i <= row@.len(),
                    row_cells.len() == i,
                    forall|k: int|
                        0 <= k < i ==> rendered_cell(render_hexagon, row@[k], #[trigger] row_cells[k]),
                    row_html_out@ == "<div class=\"hex_row\">"@ + concat(row_cells),
                decreases row@.len() - i,
            {
                let cell_html = render_hexagon(&row[i]);
                proof {
                    assert(rendered_cell(render_hexagon, row@[i as int], cell_html@));
                    assert(row_cells.push(cell_html@).drop_last() == row_cells);
                    row_cells = row_cells.push(cell_html@);
                }
                row_html_out.append(cell_html.as_str());
                i = i + 1;
            }
            row_html_out.append("</div>");
            board_html_out.append(row_html_out.as_str());
            proof {
                let old_cells = cells;
                assert(cells.push(row_cells).drop_last() == cells);
                cells = cells.push(row_cells);
                assert(self@.subrange(0, y + 1).drop_last() == self@.subrange(0, y as int));
                assert forall|j: int| 0 <= j < cells.len() implies #[trigger] cells[j].len()
                    == self@.subrange(0, y + 1)[j].len() && forall|k: int|
                    0 <= k < cells[j].len() ==> rendered_cell(
                        render_hexagon,
                        self@.subrange(0, y + 1)[j][k],
                        #[trigger] cells[j][k],
                    ) by {
                    if j < y {
                        assert(cells[j] == old_cells[j]);
                        assert(self@.subrange(0, y + 1)[j] == self@.subrange(0, y as int)[j]);
                    }
                }
            }
            y = y + 1;
        }
        board_html_out.append("</div>");
        assert(self@.subrange(0, self@.len() as int) == self@);
        board_html_out
    }
}

/// `cell` is a text that `render` may give for `h`.
pub open spec fn rendered_cell<F: Fn(&Hexagon) -> String>(render: F, h: Hexagon, cell: Seq<char>) -> bool {
    exists|s: String| render.ensures((&h,), s) && s@ == cell
}

/// `cells` holds, row by row, a rendering by `render` of each hex of `rows`.
pub open spec fn rendered_with<F: Fn(&Hexagon) -> String>(
    render: F,
    rows: Seq<Seq<Hexagon>>,
    cells: Seq<Seq<Seq<char>>>,
) -> bool {
    &&& cells.len() == rows.len()
    &&& forall|y: int|
        0 <= y < cells.len() ==> #[trigger] cells[y].len() == rows[y].len() && forall|i: int|
            0 <= i < cells[y].len() ==> rendered_cell(render, rows[y][i], #[trigger] cells[y][i])
}

/// The texts joined in order.
pub open spec fn concat(texts: Seq<Seq<char>>) -> Seq<char>
    decreases texts.len(),
{
    if texts.len() == 0 {
        seq![]
    } else {
        concat(texts.drop_last()) + texts.last()
    }
}

/// Each row of rendered cells wrapped in a row element, in order.
pub open spec fn rows_html(cells: Seq<Seq<Seq<char>>>) -> Seq<char>
    decreases cells.len(),
{
    if cells.len() == 0 {
        seq![]
    } else {
        rows_html(cells.drop_last()) + "<div class=\"hex_row\">"@ + concat(cells.last()) + "</div>"@
    }
}

/// The whole board: the rows inside a grid element.
pub open spec fn board_html(cells: Seq<Seq<Seq<char>>>) -> Seq<char> {
    "<div class=\"hex_grid\">"@ + rows_html(cells) + "</div>"@
}

/// A live slot can be mapped to its hex coordinate in `u32` arithmetic.
proof fn lemma_live_mappable(x: int, y: int, size: int)
    requires
        live(x, y, size),
        rows_of(size) <= u32::MAX,
    ensures
        mappable(x, y, size),
{
    assert(row_start_x(y, size) + row_start_y(y, size) == y + 2);
}

/// The number of live columns among the first `n` of row `y`.
pub open spec fn width_upto(y: int, size: int, n: int) -> int {
    let rows = rows_of(size);
    if y < size {
        if n < y + 1 { n } else { y + 1 }
    } else if y > rows - size {
        if n < rows - y { n } else { rows - y }
    } else if y % 2 == size % 2 && n == size {
        n - 1
    } else {
        n
    }
}

proof fn lemma_live_columns_len(y: int, size: int, n: int)
    requires
        1 <= size,
        0 <= y < rows_of(size),
        0 <= n <= size,
    ensures
        live_columns(y, size, n).len() == width_upto(y, size, n),
    decreases n,
{
    if n > 0 {
        lemma_live_columns_len(y, size, n - 1);
    }
}

/// Cells in the first `k` rows of a board of `size`.
pub open spec fn width_sum(size: int, k: int) -> int
    decreases k,
{
    if k <= 0 {
        0
    } else {
        width_sum(size, k - 1) + width_upto(k - 1, size, size)
    }
}

proof fn lemma_width_sum_top(size: int, k: int)
    requires
        1 <= size,
        0 <= k <= size,
    ensures
        2 * width_sum(size, k) == k * (k + 1),
    decreases k,
{
    if k > 0 {
        lemma_width_sum_top(size, k - 1);
        assert(width_upto(k - 1, size, size) == k);
        assert(width_sum(size, k) == width_sum(size, k - 1) + k);
        let a = width_sum(size, k - 1);
        assert(2 * (a + k) == k * (k + 1)) by (nonlinear_arith)
            requires
                2 * a == (k - 1) * (k - 1 + 1),
        ;
    } else {
        assert(k * (k + 1) == 0) by (nonlinear_arith)
            requires
                k == 0,
        ;
    }
}

proof fn lemma_width_sum_middle(size: int, k: int)
    requires
        1 <= size,
        size <= k <= 3 * size - 2,
    ensures
        2 * width_sum(size, k) == size * (size + 1) + 2 * size * (k - size) - (k - size) - (k
            - size) % 2,
    decreases k,
{
    if k == size {
        lemma_width_sum_top(size, k);
    } else {
        lemma_width_sum_middle(size, k - 1);
        assert(2 * size * (k - 1 - size) + 2 * size == 2 * size * (k - size)) by (nonlinear_arith);
    }
}

proof fn lemma_width_sum_bottom(size: int, k: int)
    requires
        1 <= size,
        3 * size - 2 <= k <= 4 * size - 3,
    ensures
        2 * width_sum(size, k) == 5 * size * size - 5 * size + 2 + 2 * (k - (3 * size - 2)) * (
        size - 1) - (k - (3 * size - 2)) * (k - (3 * size - 2) - 1),
    decreases k,
{
    let j = k - (3 * size - 2);
    if k == 3 * size - 2 {
        lemma_width_sum_middle(size, k);
        assert((k - size) % 2 == 0);
        assert(size * (size + 1) + 2 * size * (k - size) - (k - size) == 5 * size * size - 5 * size
            + 2 + 2 * j * (size - 1) - j * (j - 1)) by (nonlinear_arith)
            requires
                k - size == 2 * size - 2,
                j == 0,
        ;
    } else {
        lemma_width_sum_bottom(size, k - 1);
        assert(width_upto(k - 1, size, size) == rows_of(size) - (k - 1));
        assert(rows_of(size) == 4 * size - 3);
        assert(2 * (j - 1) * (size - 1) - (j - 1) * (j - 2) + 2 * (4 * size - 3 - (k - 1)) == 2 * j
            * (size - 1) - j * (j - 1)) by (nonlinear_arith)
            requires
                j == k - (3 * size - 2),
        ;
    }
}

proof fn lemma_row_total(rows: Seq<Seq<Hexagon>>, size: int, k: int)
    requires
        1 <= size,
        is_board_of(rows, size),
        0 <= k <= rows.len(),
    ensures
        cell_total(rows.subrange(0, k)) == width_sum(size, k),
    decreases k,
{
    if k > 0 {
        lemma_row_total(rows, size, k - 1);
        assert(rows.subrange(0, k).drop_last() == rows.subrange(0, k - 1));
        assert(is_row_prefix(rows[k - 1], k - 1, size, size));
        lemma_live_columns_len(k - 1, size, size);
    }
}

/// Every board holds exactly as many cells as `hex_count` gives for its
/// size.
pub proof fn lemma_board_cell_count(rows: Seq<Seq<Hexagon>>, size: int)
    requires
        1 <= size,
        is_board_of(rows, size),
    ensures
        cell_total(rows) == hex_count_spec(size),
{
    lemma_row_total(rows, size, rows.len() as int);
    assert(rows.subrange(0, rows.len() as int) == rows);
    lemma_width_sum_bottom(size, 4 * size - 3);
    assert(2 * (size - 1) * (size - 1) - (size - 1) * (size - 2) + 5 * size * size - 5 * size + 2 == 2
        * (size * size + 2 * (size - 1) * (size - 1) + size - 1)) by (nonlinear_arith);
}

/// Building twice for one size gives the same board: a board is
/// determined by its size.
pub proof fn lemma_board_deterministic(a: Seq<Seq<Hexagon>>, b: Seq<Seq<Hexagon>>, size: int)
    requires
        is_board_of(a, size),
        is_board_of(b, size),
    ensures
        a == b,
{
    assert forall|y: int| 0 <= y < a.len() implies #[trigger] a[y] == b[y] by {
        assert(is_row_prefix(a[y], y, size, size));
        assert(is_row_prefix(b[y], y, size, size));
        assert forall|i: int| 0 <= i < a[y].len() implies #[trigger] a[y][i] == b[y][i] by {
            assert(is_cell(a[y][i], live_columns(y, size, size)[i], y, size));
            assert(is_cell(b[y][i], live_columns(y, size, size)[i], y, size));
            GridId::lemma_eq(a[y][i].grid_id, b[y][i].grid_id);
        }
        assert(a[y] =~= b[y]);
    }
    assert(a =~= b);
}

/// No two live slots of a board map to the same hex coordinate.
pub proof fn lemma_hex_id_injective(x1: int, y1: int, x2: int, y2: int, size: int)
    requires
        1 <= size,
        live(x1, y1, size),
        live(x2, y2, size),
        hex_x(x1, y1, size) == hex_x(x2, y2, size),
        hex_y(x1, y1, size) == hex_y(x2, y2, size),
    ensures
        x1 == x2,
        y1 == y2,
{
    assert(row_start_x(y1, size) + row_start_y(y1, size) == y1 + 2);
    assert(row_start_x(y2, size) + row_start_y(y2, size) == y2 + 2);
}

} // verus!
