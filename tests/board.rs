use hexy::hexagon::{decimal_text, pair_string, HexagonTemplate};
use hexy::{hex_count, BoardError, GridId, HexBoard, HexId, HexState, Hexagon};

fn cell_total(board: &HexBoard) -> u32 {
    board.rows().iter().map(|row| row.len() as u32).sum()
}

#[test]
fn test_hex_count() {
    assert_eq!(1, hex_count(1));
    assert_eq!(7, hex_count(2));
    assert_eq!(19, hex_count(3));
    assert_eq!(37, hex_count(4));
    assert_eq!(61, hex_count(5));
    assert_eq!(91, hex_count(6));
    assert_eq!(127, hex_count(7));
    assert_eq!(169, hex_count(8));
    assert_eq!(217, hex_count(9));
    assert_eq!(271, hex_count(10));
}

#[test]
fn hex_count_of_empty_board_is_zero() {
    assert_eq!(0, hex_count(0));
}

#[test]
fn hex_count_at_largest_fitting_size() {
    assert_eq!(4294802197, hex_count(37837));
}

#[test]
fn board_cell_total_matches_hex_count() {
    for size in 1..=12 {
        let board = HexBoard::new(size);
        assert_eq!(hex_count(size), cell_total(&board), "size {}", size);
    }
}

#[test]
fn board_hex_ids_are_distinct() {
    for size in 1..=8 {
        let board = HexBoard::new(size);
        let mut seen: Vec<HexId> = Vec::new();
        for row in board.rows() {
            for hex in row {
                assert!(!seen.contains(&hex.hex_id), "size {} repeats {:?}", size, hex.hex_id);
                seen.push(hex.hex_id);
            }
        }
    }
}

#[test]
fn concrete_mappings_of_size_four() {
    assert_eq!(HexId::new(1, 1), HexId::from_grid_id(0, 0, 4));
    assert_eq!(HexId::new(2, 1), HexId::from_grid_id(0, 1, 4));
    assert_eq!(HexId::new(2, 2), HexId::from_grid_id(1, 2, 4));
    assert_eq!(HexId::new(6, 7), HexId::from_grid_id(2, 11, 4));
    assert_eq!(HexId::new(4, 7), HexId::from_grid_id(3, 9, 4));
}

#[test]
fn build_of_size_zero_is_refused() {
    assert!(matches!(HexBoard::build(0), Err(BoardError::InvalidSize)));
}

#[test]
fn build_of_too_large_size_is_refused() {
    assert!(matches!(HexBoard::build(1073741825), Err(BoardError::TooLarge)));
    assert!(matches!(HexBoard::build(u32::MAX), Err(BoardError::TooLarge)));
}

#[test]
fn build_of_size_four_has_thirteen_rows() {
    let board = HexBoard::build(4).unwrap();
    assert_eq!(4, board.size());
    let rows = board.rows();
    assert_eq!(13, rows.len());
    assert_eq!(1, rows[0].len());
    // Row 6 lies in the waist and has the parity of the size, so its last
    // slot is dead.
    assert_eq!(3, rows[6].len());
    assert_eq!(4, rows[5].len());
    assert_eq!(1, rows[12].len());
    let widths: Vec<usize> = rows.iter().map(|r| r.len()).collect();
    assert_eq!(vec![1, 2, 3, 4, 3, 4, 3, 4, 3, 4, 3, 2, 1], widths);
}

#[test]
fn small_boards_have_expected_rows() {
    let one = HexBoard::new(1);
    assert_eq!(1, one.rows().len());
    assert_eq!(1, one.rows()[0].len());
    assert_eq!(HexId::new(1, 1), one.rows()[0][0].hex_id);
    let widths: Vec<usize> = HexBoard::new(2).rows().iter().map(|r| r.len()).collect();
    assert_eq!(vec![1, 2, 1, 2, 1], widths);
    let widths: Vec<usize> = HexBoard::new(3).rows().iter().map(|r| r.len()).collect();
    assert_eq!(vec![1, 2, 3, 2, 3, 2, 3, 2, 1], widths);
}

#[test]
fn cells_hold_their_positions() {
    let board = HexBoard::new(4);
    for (y, row) in board.rows().iter().enumerate() {
        let mut last: Option<u32> = None;
        for hex in row {
            assert_eq!(y as u32, hex.grid_id.y());
            if let Some(x) = last {
                assert!(hex.grid_id.x() > x);
            }
            last = Some(hex.grid_id.x());
            assert_eq!(hex.grid_id.to_hex_id(4), hex.hex_id);
            assert_eq!(HexState::Free, hex.state);
        }
    }
    assert_eq!(GridId::new(3, 9), board.rows()[9][3].grid_id);
}

#[test]
fn building_twice_gives_the_same_board() {
    for size in 1..=6 {
        let a = HexBoard::build(size).unwrap();
        let b = HexBoard::build(size).unwrap();
        assert_eq!(a.size(), b.size());
        assert_eq!(a.rows(), b.rows());
    }
}

#[test]
fn decimal_text_writes_digits() {
    assert_eq!("0", decimal_text(0));
    assert_eq!("7", decimal_text(7));
    assert_eq!("407", decimal_text(407));
    assert_eq!("4294967295", decimal_text(u32::MAX));
}

#[test]
fn coordinates_are_written_as_pairs() {
    assert_eq!("(12, 3)", pair_string(12, 3));
    assert_eq!("(6, 7)", HexId::new(6, 7).to_text());
    assert_eq!("(2, 11)", GridId::new(2, 11).to_text());
}

fn hexagon(state: HexState) -> Hexagon {
    Hexagon { state, hex_id: HexId::new(6, 7), grid_id: GridId::new(2, 11) }
}

#[test]
fn free_hexagon_template_hides_the_piece() {
    let expected = HexagonTemplate {
        piece_style: "display: none;".to_string(),
        value_style: "display: none;".to_string(),
        hex_value: "".to_string(),
        data_grid_id: "(2, 11)".to_string(),
        data_hex_id: "(6, 7)".to_string(),
    };
    assert_eq!(expected, hexagon(HexState::Free).template());
    assert_eq!(HexState::Free, HexState::default());
}

#[test]
fn piece_template_shows_team_color_and_value() {
    let t = hexagon(HexState::Piece { team: 2, value: 15 }).template();
    assert_eq!("color: #00f", t.piece_style);
    assert_eq!("", t.value_style);
    assert_eq!("15", t.hex_value);
    assert_eq!("(2, 11)", t.data_grid_id);
    assert_eq!("(6, 7)", t.data_hex_id);
}

#[test]
fn piece_team_cycles_through_palette_and_zero_gets_glyph() {
    let t = hexagon(HexState::Piece { team: 9, value: 0 }).template();
    assert_eq!("color: #0ff", t.piece_style);
    assert_eq!("&#x1F542;", t.hex_value);
    let t = hexagon(HexState::Piece { team: 5, value: 1 }).template();
    assert_eq!("color: #f00", t.piece_style);
    let t = hexagon(HexState::Piece { team: 1, value: 1 }).template();
    assert_eq!("color: #0f0", t.piece_style);
}

#[test]
fn board_html_wraps_rows_and_cells() {
    let board = HexBoard::new(2);
    let html = board.to_html(|h: &Hexagon| format!("[{}]", h.hex_id.to_text()));
    let expected = String::new()
        + "<div class=\"hex_grid\">"
        + "<div class=\"hex_row\">[(1, 1)]</div>"
        + "<div class=\"hex_row\">[(2, 1)][(1, 2)]</div>"
        + "<div class=\"hex_row\">[(2, 2)]</div>"
        + "<div class=\"hex_row\">[(3, 2)][(2, 3)]</div>"
        + "<div class=\"hex_row\">[(3, 3)]</div>"
        + "</div>";
    assert_eq!(expected, html);
}

#[test]
fn text_box_carries_the_stage_id() {
    assert_eq!(
        "<textarea id=\"filter\"></textarea>",
        hexy::csvmfr::get_text_box("filter")
    );
}
