use espress_os::VgaEmulator;

#[test]
fn new_emulator_is_blank_with_cursor_at_origin() {
    let e = VgaEmulator::new(10, 3);
    assert_eq!(e.get_cursor_position(), "0:0");
    assert_eq!(e.get_char_at(0, 0), " :15:0");
    assert_eq!(e.get_buffer_as_string(), "          \n          \n          \n");
}

#[test]
fn write_char_places_character_with_colors() {
    let mut e = VgaEmulator::new(10, 3);
    e.write_char('A', 14, 1);
    assert_eq!(e.get_char_at(0, 0), "A:14:1");
    assert_eq!(e.get_cursor_position(), "1:0");
}

#[test]
fn write_char_wraps_at_end_of_line() {
    let mut e = VgaEmulator::new(4, 3);
    e.write_string("abcd", 7, 0);
    assert_eq!(e.get_cursor_position(), "4:0");
    e.write_char('e', 7, 0);
    assert_eq!(e.get_cursor_position(), "1:1");
    assert_eq!(e.get_char_at(0, 1), "e:7:0");
}

#[test]
fn write_string_round_trip_first_line_padded() {
    // Writing "ABC\n" yields a first line "ABC" padded with spaces to the
    // width, followed by blank lines, each newline-terminated.
    let mut e = VgaEmulator::new(8, 3);
    e.write_string("ABC\n", 15, 0);
    assert_eq!(e.get_buffer_as_string(), "ABC     \n        \n        \n");
    assert_eq!(e.get_cursor_position(), "0:1");
}

#[test]
fn write_string_drops_undisplayable_characters() {
    // The emulated backend silently drops characters outside the printable
    // range instead of substituting a glyph.
    let mut e = VgaEmulator::new(8, 2);
    e.write_string("a\tb\u{00E9}c", 15, 0);
    assert_eq!(e.get_cursor_position(), "3:0");
    assert_eq!(e.get_buffer_as_string(), "abc     \n        \n");
}

#[test]
fn newline_at_bottom_scrolls_contents_up() {
    let mut e = VgaEmulator::new(4, 2);
    e.write_string("one\ntwo\n", 15, 0);
    // Writing the second newline scrolled "one" off the top.
    assert_eq!(e.get_buffer_as_string(), "two \n    \n");
    assert_eq!(e.get_cursor_position(), "0:1");
}

#[test]
fn clear_blanks_grid_and_resets_cursor() {
    let mut e = VgaEmulator::new(6, 2);
    e.write_string("hello", 3, 4);
    e.clear();
    assert_eq!(e.get_cursor_position(), "0:0");
    assert_eq!(e.get_char_at(0, 0), " :15:0");
    assert_eq!(e.get_buffer_as_string(), "      \n      \n");
}

#[test]
fn get_char_at_out_of_range_returns_sentinel() {
    // The sentinel comes back for any out-of-range coordinate, whatever
    // was written before.
    let mut e = VgaEmulator::new(5, 4);
    e.write_string("XXXXX", 9, 2);
    assert_eq!(e.get_char_at(5, 0), " :15:0");
    assert_eq!(e.get_char_at(0, 4), " :15:0");
    assert_eq!(e.get_char_at(100, 100), " :15:0");
}

#[test]
fn cursor_position_uses_decimal_numerals() {
    let mut e = VgaEmulator::new(30, 3);
    e.write_string("0123456789ab", 15, 0);
    assert_eq!(e.get_cursor_position(), "12:0");
}

#[test]
fn emulated_scroll_of_blank_grid_stays_blank() {
    // Scroll idempotence in content-shape for the emulated backend.
    let mut e = VgaEmulator::new(5, 2);
    e.new_line();
    e.new_line(); // cursor at the bottom: this one scrolls
    assert_eq!(e.get_buffer_as_string(), "     \n     \n");
    e.new_line();
    assert_eq!(e.get_buffer_as_string(), "     \n     \n");
    assert_eq!(e.get_cursor_position(), "0:1");
}
