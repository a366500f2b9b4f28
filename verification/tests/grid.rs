use snusp::{CodeGrid, MemoryGrid, Direction, EngineError};

#[test]
fn parse_pads_rows_to_longest_line() {
    let g = CodeGrid::parse(b"ab\ncdef\ng").unwrap();
    let rows = g.rows();
    assert_eq!(rows.len(), 3);
    assert_eq!(rows[0], b"ab  ".to_vec());
    assert_eq!(rows[1], b"cdef".to_vec());
    assert_eq!(rows[2], b"g   ".to_vec());
    assert_eq!(g.size(), (3, 4));
}

#[test]
fn parse_empty_input_yields_zero_rows() {
    let g = CodeGrid::parse(b"").unwrap();
    assert_eq!(g.rows().len(), 0);
    assert_eq!(g.size(), (0, 0));
}

#[test]
fn parse_trailing_newline_adds_no_row() {
    let g = CodeGrid::parse(b"ab\n").unwrap();
    assert_eq!(g.rows().len(), 1);
    assert_eq!(g.rows()[0], b"ab".to_vec());
}

#[test]
fn parse_strips_carriage_return_before_line_feed() {
    let g = CodeGrid::parse(b"ab\r\ncd\r\n").unwrap();
    assert_eq!(g.rows().len(), 2);
    assert_eq!(g.rows()[0], b"ab".to_vec());
    assert_eq!(g.rows()[1], b"cd".to_vec());
}

#[test]
fn parse_rejects_control_bytes() {
    assert_eq!(CodeGrid::parse(b"ab\x07cd").err(), Some(EngineError::InvalidChar));
    assert_eq!(CodeGrid::parse(b"ok\nbad\ttab").err(), Some(EngineError::InvalidChar));
}

#[test]
fn is_valid_accepts_blank_and_graphic_only() {
    assert!(snusp::inst::is_valid(b' '));
    assert!(snusp::inst::is_valid(b'A'));
    assert!(snusp::inst::is_valid(b'!'));
    assert!(snusp::inst::is_valid(b'~'));
    assert!(!snusp::inst::is_valid(0x07));
    assert!(!snusp::inst::is_valid(0x7f));
    assert!(!snusp::inst::is_valid(b'\n'));
}

#[test]
fn get_is_none_out_of_bounds() {
    let g = CodeGrid::parse(b"ab\ncd").unwrap();
    assert_eq!(g.get((0, 0)), Some(b'a'));
    assert_eq!(g.get((1, 1)), Some(b'd'));
    assert_eq!(g.get((2, 0)), None);
    assert_eq!(g.get((0, 2)), None);
}

#[test]
fn set_overwrites_one_cell() {
    let mut g = CodeGrid::parse(b"ab\ncd").unwrap();
    g.set((1, 0), b'x');
    assert_eq!(g.get((1, 0)), Some(b'x'));
    assert_eq!(g.get((0, 0)), Some(b'a'));
    assert_eq!(g.get((0, 1)), Some(b'c'));
}

#[test]
fn resize_truncates_and_blank_fills() {
    let mut g = CodeGrid::parse(b"abc\ndef").unwrap();
    g.resize((2, 3));
    assert_eq!(g.size(), (3, 2));
    assert_eq!(g.get((0, 0)), Some(b'a'));
    assert_eq!(g.get((1, 1)), Some(b'e'));
    assert_eq!(g.get((2, 0)), None);
    assert_eq!(g.get((0, 2)), Some(b' '));
    assert_eq!(g.get((1, 2)), Some(b' '));
}

#[test]
fn reset_blanks_every_cell() {
    let mut g = CodeGrid::parse(b"ab\ncd").unwrap();
    g.reset();
    assert_eq!(g.size(), (2, 2));
    assert_eq!(g.get((0, 0)), Some(b' '));
    assert_eq!(g.get((1, 1)), Some(b' '));
}

#[test]
fn find_start_on_blank_grid_is_none() {
    let g = CodeGrid::parse(b"   \n   ").unwrap();
    assert_eq!(g.find_start(), None);
    let empty = CodeGrid::parse(b"").unwrap();
    assert_eq!(empty.find_start(), None);
}

#[test]
fn find_start_prefers_the_explicit_marker() {
    let g = CodeGrid::parse(b"++\n+$+").unwrap();
    assert_eq!(g.find_start(), Some((1, 1)));
}

#[test]
fn find_start_falls_back_to_first_nonblank() {
    let g = CodeGrid::parse(b"   \n  +\n+").unwrap();
    assert_eq!(g.find_start(), Some((2, 1)));
}

#[test]
fn memory_unwritten_reads_zero() {
    let m = MemoryGrid::new();
    assert_eq!(m.get((0, 0)), 0);
    assert_eq!(m.get((123, 456)), 0);
}

#[test]
fn memory_set_then_get_round_trips() {
    let mut m = MemoryGrid::new();
    m.set((3, 2), 7);
    assert_eq!(m.get((3, 2)), 7);
    assert_eq!(m.get((2, 3)), 0);
    assert_eq!(m.get((0, 0)), 0);
}

#[test]
fn memory_growth_preserves_written_cells() {
    let mut m = MemoryGrid::new();
    m.set((1, 1), 5);
    m.set((100, 50), 9);
    m.entry((200, 200));
    assert_eq!(m.get((1, 1)), 5);
    assert_eq!(m.get((100, 50)), 9);
    assert_eq!(m.get((200, 200)), 0);
}

#[test]
fn memory_reset_clears_everything() {
    let mut m = MemoryGrid::new();
    m.set((4, 4), 11);
    m.reset();
    assert_eq!(m.get((4, 4)), 0);
    assert_eq!(m.rows().len(), 0);
}

#[test]
fn direction_advance_refuses_motion_below_zero() {
    assert_eq!(Direction::Left.advance((0, 5), 1), None);
    assert_eq!(Direction::Up.advance((5, 0), 1), None);
    assert_eq!(Direction::Left.advance((3, 5), 2), Some((1, 5)));
    assert_eq!(Direction::Up.advance((5, 3), 3), Some((5, 0)));
    assert_eq!(Direction::Right.advance((3, 5), 2), Some((5, 5)));
    assert_eq!(Direction::Down.advance((3, 5), 2), Some((3, 7)));
}

#[test]
fn direction_turns_follow_the_mirrors() {
    assert_eq!(Direction::Right.turned_lurd(), Direction::Down);
    assert_eq!(Direction::Down.turned_lurd(), Direction::Right);
    assert_eq!(Direction::Left.turned_lurd(), Direction::Up);
    assert_eq!(Direction::Up.turned_lurd(), Direction::Left);
    assert_eq!(Direction::Right.turned_ruld(), Direction::Up);
    assert_eq!(Direction::Down.turned_ruld(), Direction::Left);
    assert_eq!(Direction::Left.turned_ruld(), Direction::Down);
    assert_eq!(Direction::Up.turned_ruld(), Direction::Right);
}

#[test]
fn default_direction_is_right() {
    assert_eq!(Direction::default(), Direction::Right);
}

#[test]
fn to_text_joins_rows_with_line_feeds() {
    let g = CodeGrid::parse(b"ab\ncd").unwrap();
    assert_eq!(g.to_text(), b"ab\ncd\n".to_vec());
    let padded = CodeGrid::parse(b"a\nbc").unwrap();
    assert_eq!(padded.to_text(), b"a \nbc\n".to_vec());
    let empty = CodeGrid::parse(b"").unwrap();
    assert_eq!(empty.to_text(), Vec::<u8>::new());
}
