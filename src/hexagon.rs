use vstd::prelude::*;

verus! {

/// Last row index of the growing top half of the board.
pub open spec fn first_corner(size: int) -> int {
    size - 1
}

/// Last row index of the waist, where the two hex axes grow in turn.
pub open spec fn second_corner(size: int) -> int {
    first_corner(size) * 3 + 2
}

/// Hex x-coordinate of the first cell (column 0) of storage row `gy`.
pub open spec fn row_start_x(gy: int, size: int) -> int {
    let f = first_corner(size);
    if gy <= f {
        1 + gy
    } else if gy <= second_corner(size) {
        1 + f + (gy - f) / 2
    } else {
        2 * f + 2
    }
}

/// Hex y-coordinate of the first cell (column 0) of storage row `gy`.
pub open spec fn row_start_y(gy: int, size: int) -> int {
    let f = first_corner(size);
    if gy <= f {
        1
    } else if gy <= second_corner(size) {
        1 + (gy - f + 1) / 2
    } else {
        1 + (f + 1) + (gy - second_corner(size))
    }
}

/// Hex x-coordinate of storage cell `(gx, gy)`: one step back per column.
pub open spec fn hex_x(gx: int, gy: int, size: int) -> int {
    row_start_x(gy, size) - gx
}

/// Hex y-coordinate of storage cell `(gx, gy)`: one step forward per column.
pub open spec fn hex_y(gx: int, gy: int, size: int) -> int {
    row_start_y(gy, size) + gx
}

/// The inputs on which the coordinate mapping fits in `u32` arithmetic.
pub open spec fn mappable(gx: int, gy: int, size: int) -> bool {
    &&& 1 <= size
    &&& second_corner(size) <= u32::MAX
    &&& 0 <= gx <= row_start_x(gy, size)
    &&& 0 <= gy
    &&& row_start_y(gy, size) + gx <= u32::MAX
}

/// What a board cell holds.
#[derive(Debug, Clone, Copy, PartialEq, Eq, Structural)]
pub enum HexState {
    Free,
    Piece { team: u32, value: u32 },
}

impl Default for HexState {
    fn default() -> (r: HexState)
        ensures
            r == HexState::Free,
    {
        HexState::Free
    }
}

/// The coordinates of the hex on the board itself, like on a chess board.
/// On the screen the topmost hex is (1, 1); going to the left x increases,
/// going to the right y increases.
#[derive(Debug, Clone, Copy, PartialEq, Eq, Structural)]
pub struct HexId {
    pub x: u32,
    pub y: u32,
}

/// The indices of the hex within the rows of a `HexBoard`: `y` is the
/// storage row, `x` the column in it before dead cells are dropped.
#[derive(Debug, Clone, Copy, PartialEq, Eq, Structural)]
pub struct GridId {
    x: u32,
    y: u32,
}

/// A live cell of a board: where it is stored, which hex it is, and what
/// it holds.
#[derive(Debug, Clone, Copy, PartialEq, Eq, Structural)]
pub struct Hexagon {
    pub state: HexState,
    pub hex_id: HexId,
    pub grid_id: GridId,
}

impl GridId {
    pub closed spec fn spec_x(&self) -> u32 {
        self.x
    }

    pub closed spec fn spec_y(&self) -> u32 {
        self.y
    }

    pub fn new(x: u32, y: u32) -> (r: GridId)
        ensures
            r.spec_x() == x,
            r.spec_y() == y,
    {
        GridId { x, y }
    }

    /// Two storage positions with the same indices are the same.
    pub proof fn lemma_eq(a: GridId, b: GridId)
        requires
            a.spec_x() == b.spec_x(),
            a.spec_y() == b.spec_y(),
        ensures
            a == b,
    {
    }

    pub fn x(&self) -> (r: u32)
        ensures
            r == self.spec_x(),
    {
        self.x
    }

    pub fn y(&self) -> (r: u32)
        ensures
            r == self.spec_y(),
    {
        self.y
    }

    pub fn to_hex_id(&self, size: u32) -> (r: HexId)
        requires
            mappable(self.spec_x() as int, self.spec_y() as int, size as int),
        ensures
            r.x == hex_x(self.spec_x() as int, self.spec_y() as int, size as int),
            r.y == hex_y(self.spec_x() as int, self.spec_y() as int, size as int),
    {
        HexId::from_grid_id(self.x, self.y, size)
    }
}

impl HexId {
    pub fn new(x: u32, y: u32) -> (r: HexId)
        ensures
            r.x == x,
            r.y == y,
    {
        HexId { x, y }
    }

    /// Maps storage cell `(grid_x, grid_y)` of a board with `size` hexes per
    /// edge to its hex coordinate, by walking the rows from the top: the
    /// top half widens along x, the waist grows x and y in turn, the bottom
    /// half grows along y. Moving right in a row trades x for y.
    pub fn from_grid_id(grid_x: u32, grid_y: u32, size: u32) -> (r: HexId)
        requires
            mappable(grid_x as int, grid_y as int, size as int),
        ensures
            r.x == hex_x(grid_x as int, grid_y as int, size as int),
            r.y == hex_y(grid_x as int, grid_y as int, size as int),
    {
        let first_corner_i: u32 = size - 1;
        let second_corner_i: u32 = first_corner_i * 3 + 2;

        let mut x: u32 = 1;
        let mut y: u32 = 1;
        let mut i: u32 = 0;
        while i < grid_y
            invariant
                mappable(grid_x as int, grid_y as int, size as int),
                first_corner_i == first_corner(size as int),
                second_corner_i == second_corner(size as int),
                i <= grid_y,
                x == row_start_x(i as int, size as int),
                y == row_start_y(i as int, size as int),
            decreases grid_y - i,
        {
            i = i + 1;
            if i <= first_corner_i {
                x = x + 1;
            } else if i <= second_corner_i {
                x = x + (i - first_corner_i + 1) % 2;
                y = y + (i - first_corner_i) % 2;
            } else {
                y = y + 1;
            }
        }

        x = x - grid_x;
        y = y + grid_x;

        HexId::new(x, y)
    }
}

/// Text of one decimal digit.
pub open spec fn digit_text(d: int) -> Seq<char> {
    if d == 0 {
        "0"@
    } else if d == 1 {
        "1"@
    } else if d == 2 {
        "2"@
    } else if d == 3 {
        "3"@
    } else if d == 4 {
        "4"@
    } else if d == 5 {
        "5"@
    } else if d == 6 {
        "6"@
    } else if d == 7 {
        "7"@
    } else if d == 8 {
        "8"@
    } else {
        "9"@
    }
}

/// Decimal text of `n`, without leading zeros.
pub open spec fn decimal(n: nat) -> Seq<char>
    decreases n,
{
    if n < 10 {
        digit_text(n as int)
    } else {
        decimal(n / 10) + digit_text((n % 10) as int)
    }
}

/// A coordinate pair written as `(x, y)`.
pub open spec fn pair_text(x: nat, y: nat) -> Seq<char> {
    "("@ + decimal(x) + ", "@ + decimal(y) + ")"@
}

/// Number of colours that teams cycle through.
pub const TEAM_COLOR_COUNT: u32 = 6;

/// Colour of the team with palette index `i`.
pub open spec fn team_color(i: int) -> Seq<char> {
    if i == 0 {
        "#f00"@
    } else if i == 1 {
        "#0f0"@
    } else if i == 2 {
        "#00f"@
    } else if i == 3 {
        "#0ff"@
    } else if i == 4 {
        "#f0f"@
    } else {
        "#f00"@
    }
}

fn digit_str(d: u32) -> (r: &'static str)
    requires
        d < 10,
    ensures
        r@ == digit_text(d as int),
{
    match d {
        0 => "0",
        1 => "1",
        2 => "2",
        3 => "3",
        4 => "4",
        5 => "5",
        6 => "6",
        7 => "7",
        8 => "8",
        _ => "9",
    }
}

/// Decimal text of `n`.
pub fn decimal_text(n: u32) -> (r: String)
    ensures
        r@ == decimal(n as nat),
    decreases n,
{
    if n < 10 {
        String::from_str(digit_str(n))
    } else {
        let mut r = decimal_text(n / 10);
        r.append(digit_str(n % 10));
        r
    }
}

fn team_color_str(i: u32) -> (r: &'static str)
    requires
        i < TEAM_COLOR_COUNT,
    ensures
        r@ == team_color(i as int),
{
    match i {
        0 => "#f00",
        1 => "#0f0",
        2 => "#00f",
        3 => "#0ff",
        4 => "#f0f",
        _ => "#f00",
    }
}

/// Writes a coordinate pair as `(x, y)`.
pub fn pair_string(x: u32, y: u32) -> (r: String)
    ensures
        r@ == pair_text(x as nat, y as nat),
{
    let mut r = String::from_str("(");
    r.append(decimal_text(x).as_str());
    r.append(", ");
    r.append(decimal_text(y).as_str());
    r.append(")");
    r
}

impl HexId {
    /// The coordinate written as `(x, y)`.
    pub fn to_text(&self) -> (r: String)
        ensures
            r@ == pair_text(self.x as nat, self.y as nat),
    {
        pair_string(self.x, self.y)
    }
}

impl GridId {
    /// The storage position written as `(x, y)`.
    pub fn to_text(&self) -> (r: String)
        ensures
            r@ == pair_text(self.spec_x() as nat, self.spec_y() as nat),
    {
        pair_string(self.x, self.y)
    }
}

/// The values that the hexagon template is filled with.
#[derive(Debug, PartialEq, Eq)]
pub struct HexagonTemplate {
    pub piece_style: String,
    pub value_style: String,
    pub hex_value: String,
    pub data_grid_id: String,
    pub data_hex_id: String,
}

/// Style that hides an element.
pub open spec fn hidden_style() -> Seq<char> {
    "display: none;"@
}

/// Label of a piece: a glyph for value 0, else the value in decimal.
pub open spec fn piece_label(value: nat) -> Seq<char> {
    if value == 0 {
        "&#x1F542;"@
    } else {
        decimal(value)
    }
}

impl Hexagon {
    /// `t` holds the template values of this hexagon: a free cell hides
    /// the marker and the label; a piece shows its team's colour and its
    /// label.
    pub open spec fn is_template(&self, t: HexagonTemplate) -> bool {
        &&& t.data_grid_id@ == pair_text(self.grid_id.spec_x() as nat, self.grid_id.spec_y() as nat)
        &&& t.data_hex_id@ == pair_text(self.hex_id.x as nat, self.hex_id.y as nat)
        &&& match self.state {
            HexState::Free => {
                &&& t.piece_style@ == hidden_style()
                &&& t.value_style@ == hidden_style()
                &&& t.hex_value@ == Seq::<char>::empty()
            },
            HexState::Piece { team, value } => {
                &&& t.piece_style@ == "color: "@ + team_color(team as int % TEAM_COLOR_COUNT as int)
                &&& t.value_style@ == Seq::<char>::empty()
                &&& t.hex_value@ == piece_label(value as nat)
            },
        }
    }

    /// The values to render this hexagon with.
    pub fn template(&self) -> (r: HexagonTemplate)
        ensures
            self.is_template(r),
    {
        let data_grid_id = self.grid_id.to_text();
        let data_hex_id = self.hex_id.to_text();
        match self.state {
            HexState::Free => HexagonTemplate {
                piece_style: String::from_str("display: none;"),
                value_style: String::from_str("display: none;"),
                hex_value: String::new(),
                data_grid_id,
                data_hex_id,
            },
            HexState::Piece { team, value } => {
                let mut piece_style = String::from_str("color: ");
                piece_style.append(team_color_str(team % TEAM_COLOR_COUNT));
                let hex_value = if value == 0 {
                    String::from_str("&#x1F542;")
                } else {
                    decimal_text(value)
                };
                HexagonTemplate {
                    piece_style,
                    value_style: String::new(),
                    hex_value,
                    data_grid_id,
                    data_hex_id,
                }
            },
        }
    }
}

} // verus!
