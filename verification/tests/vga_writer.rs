use hlq_os::vga_writer::{VGAOutColor, VGAWriter, BUFFER_SIZE, DEFAULT_COLOR, VGA_BUFFER_ADDR};

fn blank() -> VGAWriter {
    VGAWriter::init([0u8; BUFFER_SIZE])
}

fn cell(w: &VGAWriter, line: usize, col: usize) -> (u8, u8) {
    let i = (80 * line + col) * 2;
    (w.buffer[i], w.buffer[i + 1])
}

fn row_text(w: &VGAWriter, line: usize, cols: usize) -> Vec<u8> {
    (0..cols).map(|c| cell(w, line, c).0).collect()
}

const ALL_COLORS: [VGAOutColor; 16] = [
    VGAOutColor::Black,
    VGAOutColor::Blue,
    VGAOutColor::Green,
    VGAOutColor::Cyan,
    VGAOutColor::Red,
    VGAOutColor::Magenta,
    VGAOutColor::Brown,
    VGAOutColor::LightGray,
    VGAOutColor::DarkGray,
    VGAOutColor::LightBlue,
    VGAOutColor::LightGreen,
    VGAOutColor::LightCyan,
    VGAOutColor::LightRed,
    VGAOutColor::Pink,
    VGAOutColor::Yellow,
    VGAOutColor::White,
];

#[test]
fn init_keeps_screen_contents() {
    let mut screen = [0u8; BUFFER_SIZE];
    screen[0] = b'O';
    screen[1] = 0x07;
    screen[160] = b'K';
    screen[161] = 0x07;
    let mut w = VGAWriter::init(screen);
    assert_eq!(w.buffer, screen);
    assert_eq!(w.line_o, 0);
    assert_eq!(w.line_char_o, 0);
    assert_eq!(w.color, 0x2f);
    w.line_o = 2;
    w.print("x");
    assert_eq!(cell(&w, 0, 0), (b'O', 0x07));
    assert_eq!(cell(&w, 1, 0), (b'K', 0x07));
    assert_eq!(cell(&w, 2, 0), (b'x', 0x2f));
}

#[test]
fn init_over_blank_screen_at_origin() {
    let w = blank();
    assert_eq!(w.vga_addr, 0xb8000);
    assert_eq!(w.vga_addr, VGA_BUFFER_ADDR);
    assert_eq!(w.line_o, 0);
    assert_eq!(w.line_char_o, 0);
    assert_eq!(w.color, 0x2f);
    assert_eq!(DEFAULT_COLOR, 0x2f);
    assert_eq!(w.buffer.len(), BUFFER_SIZE);
    assert_eq!(BUFFER_SIZE, 80 * 25 * 2);
    assert!(w.buffer.iter().all(|b| *b == 0));
}

#[test]
fn color_codes_follow_palette() {
    for (i, c) in ALL_COLORS.iter().enumerate() {
        assert_eq!(c.code() as usize, i);
    }
}

#[test]
fn set_color_white_on_green_is_0x2f() {
    let mut w = blank();
    w.set_color(VGAOutColor::White, VGAOutColor::Green);
    assert_eq!(w.color, 0x2f);
}

#[test]
fn set_color_green_on_black_is_0x02() {
    let mut w = blank();
    w.set_color(VGAOutColor::Green, VGAOutColor::Black);
    assert_eq!(w.color, 0x02);
    w.set_color(VGAOutColor::Yellow, VGAOutColor::Blue);
    assert_eq!(w.color, 0x1e);
}

#[test]
fn color_byte_keeps_both_colors() {
    let mut w = blank();
    for t in ALL_COLORS.iter() {
        for b in ALL_COLORS.iter() {
            w.set_color(*t, *b);
            assert_eq!(w.color >> 4, b.code());
            assert_eq!(w.color & 0x0f, t.code());
        }
    }
}

#[test]
fn set_color_hex_sets_attribute() {
    let mut w = blank();
    w.set_color_hex(0x4e);
    assert_eq!(w.color, 0x4e);
    w.print_char(b'X');
    assert_eq!(cell(&w, 0, 0), (b'X', 0x4e));
}

#[test]
fn print_char_writes_cell_and_advances() {
    let mut w = blank();
    w.print_char(b'A');
    assert_eq!(cell(&w, 0, 0), (b'A', 0x2f));
    assert_eq!(w.line_char_o, 1);
    assert_eq!(w.line_o, 0);
    assert!(w.buffer[2..].iter().all(|b| *b == 0));
}

#[test]
fn print_char_on_later_line() {
    let mut w = blank();
    w.line_o = 2;
    w.line_char_o = 5;
    w.print_char(b'z');
    assert_eq!(w.buffer[(80 * 2 + 5) * 2], b'z');
    assert_eq!(w.buffer[(80 * 2 + 5) * 2 + 1], 0x2f);
    assert_eq!(w.line_char_o, 6);
}

#[test]
fn print_char_past_row_end_reaches_next_row() {
    let mut w = blank();
    w.line_char_o = 80;
    w.print_char(b'q');
    assert_eq!(cell(&w, 1, 0), (b'q', 0x2f));
}

#[test]
fn print_char_last_cell() {
    let mut w = blank();
    w.line_o = 24;
    w.line_char_o = 79;
    w.print_char(b'!');
    assert_eq!(w.buffer[3998], b'!');
    assert_eq!(w.buffer[3999], 0x2f);
}

#[test]
fn new_line_breaks_line() {
    let mut w = blank();
    w.print_char(b'A');
    w.new_line();
    w.print_char(b'A');
    assert_eq!(cell(&w, 0, 0).0, b'A');
    assert_eq!(cell(&w, 1, 0).0, b'A');
    assert_eq!(cell(&w, 1, 1).0, 0);
    assert_eq!(w.line_o, 1);
    assert_eq!(w.line_char_o, 1);
}

#[test]
fn new_line_keeps_screen_and_color() {
    let mut w = blank();
    w.print("ab");
    let before = w.buffer.clone();
    w.new_line();
    assert_eq!(w.buffer, before);
    assert_eq!(w.line_o, 1);
    assert_eq!(w.line_char_o, 0);
    assert_eq!(w.color, 0x2f);
}

#[test]
fn print_hello_world() {
    let mut w = blank();
    w.print("Hello World");
    assert_eq!(row_text(&w, 0, 11), b"Hello World".to_vec());
    for c in 0..11 {
        assert_eq!(cell(&w, 0, c).1, 0x2f);
    }
    assert_eq!(cell(&w, 0, 11), (0, 0));
    assert_eq!(w.line_o, 0);
    assert_eq!(w.line_char_o, 11);
}

#[test]
fn print_handles_newline() {
    let mut w = blank();
    w.print("ab\ncd");
    assert_eq!(row_text(&w, 0, 3), b"ab\0".to_vec());
    assert_eq!(row_text(&w, 1, 3), b"cd\0".to_vec());
    assert_eq!(w.line_o, 1);
    assert_eq!(w.line_char_o, 2);
}

#[test]
fn print_empty_changes_nothing() {
    let mut w = blank();
    w.print("");
    assert_eq!(w.line_o, 0);
    assert_eq!(w.line_char_o, 0);
    assert!(w.buffer.iter().all(|b| *b == 0));
}

#[test]
fn println_hello_world() {
    let mut w = blank();
    w.println("Hello");
    w.println("World");
    assert_eq!(row_text(&w, 0, 5), b"Hello".to_vec());
    assert_eq!(row_text(&w, 1, 5), b"World".to_vec());
    assert_eq!(w.line_o, 2);
    assert_eq!(w.line_char_o, 0);
}

#[test]
fn print_in_two_parts_equals_print_at_once() {
    let mut a = blank();
    a.print("ab\nc");
    a.print("d\nef");
    let mut b = blank();
    b.print("ab\ncd\nef");
    assert_eq!(a.buffer, b.buffer);
    assert_eq!(a.line_o, b.line_o);
    assert_eq!(a.line_char_o, b.line_char_o);
}

#[test]
fn println_equals_print_then_new_line() {
    let mut a = blank();
    a.println("xyz");
    let mut b = blank();
    b.print("xyz");
    b.new_line();
    assert_eq!(a.buffer, b.buffer);
    assert_eq!((a.line_o, a.line_char_o), (b.line_o, b.line_char_o));
}

#[test]
fn print_keeps_colour_per_text() {
    let mut w = blank();
    w.print("a");
    w.set_color(VGAOutColor::Red, VGAOutColor::Black);
    w.print("b");
    assert_eq!(cell(&w, 0, 0), (b'a', 0x2f));
    assert_eq!(cell(&w, 0, 1), (b'b', 0x04));
}

#[test]
fn fits_on_screen_whole_screen() {
    let w = blank();
    let full = "x".repeat(2000);
    assert!(w.fits_on_screen(&full));
    let over = "x".repeat(2001);
    assert!(!w.fits_on_screen(&over));
    assert!(w.fits_on_screen(""));
}

#[test]
fn fits_on_screen_counts_newlines() {
    let mut w = blank();
    w.line_o = 24;
    assert!(w.fits_on_screen("abc"));
    assert!(!w.fits_on_screen("abc\nd"));
    assert!(w.fits_on_screen("abc\n\n\n"));
    w.line_o = isize::MAX - 1;
    assert!(w.fits_on_screen("\n"));
    assert!(!w.fits_on_screen("\n\n"));
}

#[test]
fn negative_column_reaches_previous_row() {
    let mut w = blank();
    w.line_o = 1;
    w.line_char_o = -1;
    assert!(w.fits_on_screen("ab"));
    w.print("ab");
    assert_eq!(cell(&w, 0, 79), (b'a', 0x2f));
    assert_eq!(cell(&w, 1, 0), (b'b', 0x2f));
    assert_eq!(w.line_char_o, 1);
}

#[test]
fn fits_on_screen_rejects_huge_cursor() {
    let mut w = blank();
    w.line_o = isize::MAX / 80 + 1;
    w.line_char_o = isize::MIN;
    assert!(!w.fits_on_screen("a"));
    w.line_o = 0;
    w.line_char_o = isize::MAX;
    assert!(!w.fits_on_screen("a"));
}

#[test]
fn fits_on_screen_rejects_negative_cursor() {
    let mut w = blank();
    w.line_char_o = -1;
    assert!(!w.fits_on_screen("a"));
    assert!(w.fits_on_screen("\na"));
}

#[test]
fn print_full_screen() {
    let mut w = blank();
    let full = "y".repeat(2000);
    w.print(&full);
    assert!(w.buffer.chunks(2).all(|c| c[0] == b'y' && c[1] == 0x2f));
    assert_eq!(w.line_char_o, 2000);
}
