use sprinkles_os::vga_buffer::{
    lock_colour, set_colour, AnsiItem, Buffer, Colour, ColourCode, ColourText, LineFeed,
    ScreenChar, ScreenPosition, Writer,
};

type Small = Writer<4, 3>;

fn small() -> Small {
    Writer::new(Buffer::new(ScreenChar { ascii_character: b'.', colour_code: 0 }))
}

fn row(writer: &Small, r: usize) -> String {
    (0..4).map(|c| writer.buffer.read(r, c).ascii_character as char).collect()
}

fn rows(writer: &Small) -> Vec<String> {
    (0..3).map(|r| row(writer, r)).collect()
}

fn cursor(writer: &Small) -> (usize, usize) {
    (writer.row_position.0, writer.column_position.0)
}

#[test]
fn colour_code_packs_background_and_foreground() {
    assert_eq!(ColourCode::new(Colour::White, Colour::Red), ColourCode(0x4f));
    assert_eq!(ColourCode::new(Colour::Black, Colour::Yellow), ColourCode(0xe0));
    assert_eq!(ColourCode::new(Colour::Black, Colour::Black), ColourCode(0));
    assert_eq!(ColourCode::new(Colour::White, Colour::White), ColourCode(0xff));
    assert_eq!(ColourCode::default(), ColourCode(0x0f));
    assert_eq!(Colour::LightGray.code(), 7);
    assert_eq!(Colour::Pink.code(), 13);
}

#[test]
fn colour_code_escape_adds_up_to_the_code() {
    assert_eq!(ColourCode(0x3f).escape_bytes(), [0x3f, 0]);
    assert_eq!(ColourCode(0x7f).escape_bytes(), [0x7f, 0]);
    assert_eq!(ColourCode(0x80).escape_bytes(), [0x7f, 1]);
    assert_eq!(ColourCode(0xdf).escape_bytes(), [0x7f, 0x60]);
    assert_eq!(ColourCode(0xff).escape_bytes(), [0x7f, 0x80]);
}

#[test]
fn colour_codes_and_positions_convert() {
    let byte: u8 = ColourCode(0x4f).into();
    assert_eq!(byte, 0x4f);
    let code: ColourCode = 0x2au8.into();
    assert_eq!(code, ColourCode(0x2a));
    let escape: [u8; 2] = ColourCode(0x90).into();
    assert_eq!(escape, [0x7f, 0x11]);
    let place: usize = ScreenPosition::<80>(17).into();
    assert_eq!(place, 17);
    assert_eq!(ColourText::from("hi"), ColourText(0x0f, "hi".to_string()));
}

#[test]
fn buffer_refuses_to_show_a_line_feed() {
    let mut buffer: Buffer<2, 2> = Buffer::new(ScreenChar::default());
    assert_eq!(buffer.write_char(ColourCode(0x12), b'x', 1, 0), Ok(()));
    assert_eq!(buffer.read(1, 0), ScreenChar { ascii_character: b'x', colour_code: 0x12 });
    assert_eq!(buffer.write_char(ColourCode(0x12), b'\n', 1, 1), Err(LineFeed));
    assert_eq!(buffer.write_char(ColourCode(0x12), b'\n', 9, 9), Err(LineFeed));
    assert_eq!(buffer.read(1, 1), ScreenChar::default());
    buffer.clear_screen(ColourCode(0x70));
    for r in 0..2 {
        for c in 0..2 {
            assert_eq!(buffer.read(r, c), ScreenChar { ascii_character: b' ', colour_code: 0x70 });
        }
    }
}

#[test]
fn coloured_text_is_encoded_between_zero_bytes() {
    let text = ColourText::colour(ColourCode(0xdf), "ab");
    assert_eq!(text, ColourText(0xdf, "ab".to_string()));
    assert_eq!(text.encoded(), vec![0, 0x7f, 0x60, b'a', b'b', 0, 0, 0]);
    assert_eq!(text.to_string(), "\0\u{7f}\u{60}ab\0\0\0");
    assert_eq!(ColourText::text("x".to_string()), ColourText(0x0f, "x".to_string()));
    assert_eq!(ColourText::text("x".to_string()).encoded(), vec![0, 0x0f, 0, b'x', 0, 0, 0]);
}

#[test]
fn coloured_text_with_an_invalid_colour_byte_gets_a_replacement_character() {
    let text = ColourText::colour(ColourCode(0xff), "a");
    assert_eq!(text.encoded(), vec![0, 0x7f, 0x80, b'a', 0, 0, 0]);
    assert_eq!(text.to_string(), "\0\u{7f}\u{fffd}a\0\0\0");
}

#[test]
fn screen_position_wraps_forward_and_stops_backward() {
    let mut position: ScreenPosition<80> = ScreenPosition(78);
    position.add_assign(1);
    assert_eq!(position, ScreenPosition(79));
    position.add_assign(1);
    assert_eq!(position, ScreenPosition(0));
    position.add_assign(165);
    assert_eq!(position, ScreenPosition(5));
    position.sub_assign(3);
    assert_eq!(position, ScreenPosition(2));
    position.sub_assign(3);
    assert_eq!(position, ScreenPosition(0));
    let mut far: ScreenPosition<80> = ScreenPosition(200);
    far.sub_assign(10);
    assert_eq!(far, ScreenPosition(80));
}

#[test]
fn default_screen_char_is_a_space() {
    assert_eq!(ScreenChar::default(), ScreenChar { ascii_character: b' ', colour_code: 0 });
}

#[test]
fn new_writer_starts_at_the_top_left_in_white_on_black() {
    let writer = small();
    assert_eq!(cursor(&writer), (0, 0));
    assert_eq!(writer.colour_code, ColourCode(0x0f));
    assert!(!writer.lock_colour);
    assert_eq!(rows(&writer), vec!["....", "....", "...."]);
    assert_eq!(writer.blank(), ScreenChar { ascii_character: b' ', colour_code: 0x0f });
}

#[test]
fn write_byte_shows_the_byte_and_moves_on() {
    let mut writer = small();
    writer.write_byte(ColourCode(0x2a), b'H');
    assert_eq!(writer.buffer.read(0, 0), ScreenChar { ascii_character: b'H', colour_code: 0x2a });
    assert_eq!(cursor(&writer), (0, 1));
    writer.write_byte(ColourCode(0x2a), b'i');
    assert_eq!(rows(&writer), vec!["Hi..", "....", "...."]);
    assert_eq!(cursor(&writer), (0, 2));
}

#[test]
fn line_feed_starts_a_blank_line() {
    let mut writer = small();
    writer.write_byte(ColourCode(1), b'a');
    writer.write_byte(ColourCode(1), b'\n');
    assert_eq!(cursor(&writer), (1, 0));
    assert_eq!(rows(&writer), vec!["a...", "    ", "...."]);
    assert_eq!(writer.buffer.read(1, 3), ScreenChar { ascii_character: b' ', colour_code: 0x0f });
}

#[test]
fn last_place_of_a_row_wraps_to_a_new_line() {
    let mut writer = small();
    writer.write_literal("abcd");
    assert_eq!(cursor(&writer), (1, 0));
    assert_eq!(rows(&writer), vec!["abcd", "    ", "...."]);
    writer.write_literal("e");
    assert_eq!(rows(&writer), vec!["abcd", "e   ", "...."]);
}

#[test]
fn new_line_in_the_last_row_scrolls() {
    let mut writer = small();
    writer.write_literal("1\n2\n3");
    assert_eq!(rows(&writer), vec!["1...", "2   ", "3   "]);
    assert_eq!(cursor(&writer), (2, 1));
    writer.new_line();
    assert_eq!(rows(&writer), vec!["2   ", "3   ", "    "]);
    assert_eq!(cursor(&writer), (2, 0));
    writer.write_literal("4567");
    assert_eq!(rows(&writer), vec!["3   ", "4567", "    "]);
    assert_eq!(cursor(&writer), (2, 0));
}

#[test]
fn clear_row_and_clear_all_fill_with_the_character() {
    let mut writer = small();
    writer.write_literal("ab");
    writer.clear_row(2, ScreenChar { ascii_character: b'#', colour_code: 7 });
    assert_eq!(rows(&writer), vec!["ab..", "....", "####"]);
    assert_eq!(cursor(&writer), (0, 2));
    writer.colour_code = ColourCode(0x4f);
    writer.clear_all();
    assert_eq!(rows(&writer), vec!["    ", "    ", "    "]);
    assert_eq!(cursor(&writer), (0, 0));
    assert_eq!(writer.buffer.read(2, 3), ScreenChar { ascii_character: b' ', colour_code: 0x4f });
}

#[test]
fn draw_rect_fills_the_rectangle_only() {
    let mut writer = small();
    writer.colour_code = ColourCode(0x1e);
    writer.draw_rect(ScreenPosition(1), ScreenPosition(1), ScreenPosition(2), ScreenPosition(2), b'*');
    assert_eq!(rows(&writer), vec!["....", ".**.", ".**."]);
    assert_eq!(writer.buffer.read(1, 1), ScreenChar { ascii_character: b'*', colour_code: 0x1e });
    assert_eq!(writer.buffer.read(1, 0), ScreenChar { ascii_character: b'.', colour_code: 0 });
    assert_eq!(cursor(&writer), (0, 0));
    writer.draw_rect(ScreenPosition(0), ScreenPosition(0), ScreenPosition(0), ScreenPosition(3), b'!');
    assert_eq!(rows(&writer), vec!["....", ".**.", ".**."]);
}

#[test]
fn buffer_scrolls_rows_up_and_keeps_the_last() {
    let mut buffer: Buffer<2, 3> = Buffer::new(ScreenChar::default());
    for r in 0..3usize {
        for c in 0..2usize {
            buffer.write(r, c, ScreenChar { ascii_character: (10 * r + c) as u8, colour_code: 0 });
        }
    }
    buffer.scroll_up();
    let seen: Vec<u8> = (0..3)
        .flat_map(|r| (0..2).map(move |c| (r, c)))
        .map(|(r, c)| buffer.read(r, c).ascii_character)
        .collect();
    assert_eq!(seen, vec![10, 11, 20, 21, 20, 21]);
}

#[test]
fn write_colourful_obeys_colour_codes_and_restores_the_colours() {
    let mut writer = small();
    writer.colour_code = ColourCode(0x07);
    writer.write_colourful(ColourText(0x3f, "a\0\u{7f}\u{1}b".to_string()));
    assert_eq!(writer.buffer.read(0, 0), ScreenChar { ascii_character: b'a', colour_code: 0x3f });
    assert_eq!(writer.buffer.read(0, 1), ScreenChar { ascii_character: b'b', colour_code: 0x80 });
    assert_eq!(writer.colour_code, ColourCode(0x07));
    assert_eq!(cursor(&writer), (0, 2));
}

#[test]
fn write_colourful_shows_a_block_for_unprintable_bytes() {
    let mut writer = small();
    writer.write_colourful(ColourText(0x0f, "\u{7}\u{7f}~".to_string()));
    assert_eq!(writer.buffer.read(0, 0).ascii_character, 0xfe);
    assert_eq!(writer.buffer.read(0, 1).ascii_character, 0xfe);
    assert_eq!(writer.buffer.read(0, 2).ascii_character, b'~');
    let mut wide = small();
    wide.write_colourful(ColourText(0x0f, "é".to_string()));
    assert_eq!(wide.buffer.read(0, 0).ascii_character, 0xfe);
    assert_eq!(wide.buffer.read(0, 1).ascii_character, 0xfe);
    assert_eq!(cursor(&wide), (0, 2));
}

#[test]
fn write_colourful_handles_a_zero_byte_near_the_end() {
    let mut one_left = small();
    one_left.write_colourful(ColourText(0x0f, "x\0y".to_string()));
    assert_eq!(rows(&one_left), vec!["xy..", "....", "...."]);
    let mut none_left = small();
    none_left.write_colourful(ColourText(0x0f, "x\0".to_string()));
    assert_eq!(none_left.buffer.read(0, 1).ascii_character, 0);
    assert_eq!(cursor(&none_left), (0, 2));
    let mut locked = small();
    locked.lock_colour = true;
    locked.write_colourful(ColourText(0x3f, "x\0y".to_string()));
    assert_eq!(rows(&locked), vec!["x...", "....", "...."]);
    assert_eq!(locked.buffer.read(0, 0).colour_code, 0x0f);
}

#[test]
fn write_colourful_keeps_locked_colours() {
    let mut writer = small();
    writer.colour_code = ColourCode(0x07);
    writer.lock_colour = true;
    writer.write_colourful(ColourText(0x3f, "a\0\u{7f}\u{1}b".to_string()));
    assert_eq!(writer.buffer.read(0, 0), ScreenChar { ascii_character: b'a', colour_code: 0x07 });
    assert_eq!(writer.buffer.read(0, 1), ScreenChar { ascii_character: b'b', colour_code: 0x07 });
}

#[test]
fn write_colourful_colour_sum_wraps() {
    let mut writer = small();
    writer.write_colourful(ColourText(0x0f, "\0\u{7f}\u{7f}a".to_string()));
    assert_eq!(writer.buffer.read(0, 0), ScreenChar { ascii_character: b'a', colour_code: 0xfe });
    let mut high = small();
    high.write_colourful(ColourText(0x0f, "\0é\u{1}".to_string()));
    assert_eq!(cursor(&high), (0, 1));
    assert_eq!(high.buffer.read(0, 0), ScreenChar { ascii_character: 0xfe, colour_code: 0x6c });
}

#[test]
fn write_string_starts_in_white_on_black() {
    let mut writer = small();
    writer.colour_code = ColourCode(0x55);
    writer.write_string("hi");
    assert_eq!(writer.buffer.read(0, 0), ScreenChar { ascii_character: b'h', colour_code: 0x0f });
    assert_eq!(writer.colour_code, ColourCode(0x55));
}

#[test]
fn esc_sequence_writes_plain_text() {
    let mut writer = small();
    writer.esc_sequence("ab\ncd".to_string());
    assert_eq!(rows(&writer), vec!["ab..", "cd  ", "...."]);
    assert_eq!(cursor(&writer), (1, 2));
    let mut untouched = small();
    untouched.esc_sequence(String::new());
    assert_eq!(rows(&untouched), vec!["....", "....", "...."]);
}

#[test]
fn esc_sequence_sets_colours() {
    let mut writer = small();
    writer.esc_sequence("\u{1b}[31ma\u{1b}[44mb\u{1b}[0mc".to_string());
    assert_eq!(writer.buffer.read(0, 0), ScreenChar { ascii_character: b'a', colour_code: 0x01 });
    assert_eq!(writer.buffer.read(0, 1), ScreenChar { ascii_character: b'b', colour_code: 0x41 });
    assert_eq!(writer.buffer.read(0, 2), ScreenChar { ascii_character: b'c', colour_code: 0x0f });
    assert_eq!(writer.colour_code, ColourCode(0x0f));
}

#[test]
fn esc_sequence_bright_colours_and_lock() {
    let mut writer = small();
    writer.colour_code = ColourCode(0x00);
    writer.esc_sequence("\u{1b}[32;1m".to_string());
    assert_eq!(writer.colour_code, ColourCode(0x0a));
    writer.esc_sequence("\u{1b}[45;1m".to_string());
    assert_eq!(writer.colour_code, ColourCode(0xda));
    writer.esc_sequence("\u{1b}[37;2m".to_string());
    assert_eq!(writer.colour_code, ColourCode(0xd7));
    writer.esc_sequence("\u{1b}[5m".to_string());
    assert_eq!(writer.colour_code, ColourCode(0xd7));
    writer.lock_colour = true;
    writer.esc_sequence("\u{1b}[0m\u{1b}[31mx".to_string());
    assert_eq!(writer.colour_code, ColourCode(0xd7));
    assert_eq!(writer.buffer.read(0, 0), ScreenChar { ascii_character: b'x', colour_code: 0xd7 });
}

#[test]
fn esc_sequence_moves_the_cursor() {
    let mut writer = small();
    writer.esc_sequence("abc\n\u{1b}[2C".to_string());
    assert_eq!(cursor(&writer), (1, 2));
    writer.esc_sequence("\u{1b}[1D".to_string());
    assert_eq!(cursor(&writer), (1, 1));
    writer.esc_sequence("\u{1b}[9D".to_string());
    assert_eq!(cursor(&writer), (1, 0));
    writer.esc_sequence("\u{1b}[6C".to_string());
    assert_eq!(cursor(&writer), (1, 2));
    writer.esc_sequence("\u{1b}[1B".to_string());
    assert_eq!(cursor(&writer), (1, 3));
    writer.esc_sequence("\u{1b}[1A".to_string());
    assert_eq!(cursor(&writer), (0, 3));
    writer.esc_sequence("\u{1b}[7A".to_string());
    assert_eq!(cursor(&writer), (0, 3));
}

#[test]
fn esc_sequence_erases_line_and_display() {
    let mut writer = small();
    writer.esc_sequence("ab\ncd\u{1b}[K".to_string());
    assert_eq!(rows(&writer), vec!["ab..", "    ", "...."]);
    assert_eq!(cursor(&writer), (1, 2));
    writer.esc_sequence("\u{1b}[2J".to_string());
    assert_eq!(rows(&writer), vec!["    ", "    ", "    "]);
    assert_eq!(cursor(&writer), (0, 0));
}

#[test]
fn esc_sequence_ignores_sequences_it_does_not_know() {
    let mut writer = small();
    writer.esc_sequence("a\u{1b}[?25lb\u{1b}[sc".to_string());
    assert_eq!(rows(&writer), vec!["abc.", "....", "...."]);
}

#[test]
fn apply_obeys_one_piece() {
    let mut writer = small();
    writer.apply(&AnsiItem::TextBlock(b"ok".to_vec()));
    writer.apply(&AnsiItem::SetGraphicsMode(vec![33]));
    writer.apply(&AnsiItem::SetGraphicsMode(vec![]));
    writer.apply(&AnsiItem::CursorForward(u32::MAX));
    assert_eq!(rows(&writer), vec!["ok..", "....", "...."]);
    assert_eq!(writer.colour_code, ColourCode(0x03));
    assert_eq!(cursor(&writer), (0, ((2u64 + u32::MAX as u64) % 4) as usize));
    writer.apply_all(&vec![AnsiItem::Unsupported, AnsiItem::CursorBackward(u32::MAX), AnsiItem::EraseLine]);
    assert_eq!(cursor(&writer), (0, 0));
    assert_eq!(rows(&writer), vec!["    ", "....", "...."]);
    writer.write_bytes(&vec![b'z', 0x0a, 0x00]);
    assert_eq!(cursor(&writer), (1, 1));
    assert_eq!(writer.buffer.read(1, 0).ascii_character, 0);
}

#[test]
fn set_colour_needs_the_writer_and_locked_colours() {
    let mut writer = small();
    assert_eq!(
        set_colour::<4, 3>(None, ColourCode(0x1f)),
        Err("Failed to lock writer to set colour.")
    );
    assert_eq!(set_colour(Some(&mut writer), ColourCode(0x1f)), Err("Writer colour is locked"));
    assert_eq!(writer.colour_code, ColourCode(0x0f));
    assert_eq!(lock_colour(Some(&mut writer), true), Ok(()));
    assert!(writer.lock_colour);
    assert_eq!(set_colour(Some(&mut writer), ColourCode(0x1f)), Ok(()));
    assert_eq!(writer.colour_code, ColourCode(0x1f));
    assert_eq!(lock_colour(Some(&mut writer), false), Ok(()));
    assert!(!writer.lock_colour);
    assert_eq!(lock_colour::<4, 3>(None, true), Err(()));
}
