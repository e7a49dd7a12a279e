use hex_view::Color;
use hex_view::TermPrinter;
use hex_view::Ty;

const WHITE: &str = "\u{1b}[38;5;7m";
const GREEN: &str = "\u{1b}[38;5;2m";
const RESET: &str = "\u{1b}[39m";

fn render_one_line(buf: Vec<u8>, ty: Ty, tag: &str) -> String {
    let mut printer = TermPrinter::new(buf);
    let mut b = printer.style_builder();
    let len = b.buf.len();
    b.line(len, ty, tag);
    printer.finish(b);
    assert!(printer.render_ok());
    printer.print()
}

#[test]
fn ipv4_row_is_exact() {
    let out = render_one_line(vec![192, 168, 0, 1], Ty::Ip4, "ip");
    let expected = [
        WHITE,
        " C0 A8 00 01 ",
        ".. .. .. .. ",
        " .. .. .. .. .. .. .. .. ",
        "  ",
        "          ip",
        " ",
        "192.168.0.1",
        RESET,
        "\n",
    ]
    .concat();
    assert_eq!(out, expected);
}

#[test]
fn big_endian_four_bytes() {
    let out = render_one_line(vec![0x00, 0x00, 0x01, 0x00], Ty::BeNum, "num");
    assert!(out.contains(": 256"));
}

#[test]
fn little_endian_four_bytes() {
    let out = render_one_line(vec![0x00, 0x00, 0x01, 0x00], Ty::LeNum, "num");
    assert!(out.contains(": 65536"));
    let out = render_one_line(vec![0x00, 0x00, 0x00, 0x01], Ty::LeNum, "num");
    assert!(out.contains(": 16777216"));
}

#[test]
fn numeric_widths_one_two_eight() {
    let out = render_one_line(vec![0x2A], Ty::BeNum, "n");
    assert!(out.contains(": 42"));
    let out = render_one_line(vec![0x01, 0x02], Ty::BeNum, "n");
    assert!(out.contains(": 258"));
    let out = render_one_line(vec![0x01, 0x02], Ty::LeNum, "n");
    assert!(out.contains(": 513"));
    let out = render_one_line(vec![0, 0, 0, 0, 0, 0, 0, 1], Ty::BeNum, "n");
    assert!(out.contains(": 1"));
    let out = render_one_line(vec![0, 0, 0, 0, 0, 0, 0, 1], Ty::LeNum, "n");
    assert!(out.contains(": 72057594037927936"));
}

#[test]
fn ascii_passes_allow_listed_bytes_through() {
    let out = render_one_line(b"AbCd9:;@".to_vec(), Ty::Ascii, "text");
    assert!(out.contains("| AbCd9:;@ "));
}

#[test]
fn ascii_control_bytes_become_glyphs() {
    let out = render_one_line(vec![b'\n', b'\r', 0, 7], Ty::Ascii, "text");
    assert!(out.contains('\u{240a}'));
    assert!(out.contains('\u{240d}'));
    assert!(out.contains('\u{2400}'));
    assert!(out.contains('\u{fffd}'));
}

#[test]
fn custom_label_with_numeric_hint() {
    let out = render_one_line(vec![0x00, 0x00, 0x01, 0x00], Ty::custom("len"), "f");
    assert!(out.contains("; len (65536)"));
    let out = render_one_line(vec![1, 2, 3], Ty::custom("odd"), "f");
    assert!(out.contains("; odd ()"));
}

#[test]
fn hex_cells_are_uppercase() {
    let out = render_one_line(vec![0xab, 0xcd], Ty::Binary, "b");
    assert!(out.contains("AB CD "));
    assert!(!out.contains("ab cd"));
}

#[test]
fn line_color_escapes_frame_each_row() {
    let mut printer = TermPrinter::new(vec![1, 2, 3, 4]);
    let mut b = printer.style_builder();
    b.set_color(Color::Green);
    b.line(4, Ty::Binary, "g");
    printer.finish(b);
    assert!(printer.render_ok());
    let out = printer.print();
    assert!(out.starts_with(GREEN));
    assert!(out.ends_with(&format!("{}\n", RESET)));
}

#[test]
fn empty_buffer_renders_nothing() {
    let printer = TermPrinter::new(Vec::new());
    assert!(printer.render_ok());
    assert_eq!(printer.print(), "");
}

#[test]
fn childless_tree_renders_whole_buffer_as_text() {
    let printer = TermPrinter::new(b"Hi".to_vec());
    assert!(printer.render_ok());
    let out = printer.print();
    assert!(out.contains("48 69 "));
    assert!(out.contains("| Hi"));
    // the root is no line: its row opens without a color escape
    assert!(out.starts_with(" 48"));
}

#[test]
fn header_with_two_lines_over_forty_bytes() {
    let mut printer = TermPrinter::new(vec![0xAB; 40]);
    let mut b = printer.style_builder();
    let mut h = b.header(0, 40, Ty::Ascii);
    h.line(4, Ty::Binary, "a");
    h.line(36, Ty::Binary, "b");
    b.attach(h);
    printer.finish(b);
    assert!(printer.render_ok());
    let out = printer.print();
    // one chunk row for the 4-byte field, two (32 + 4) for the 36-byte field
    assert_eq!(out.matches("           a ").count(), 1);
    assert_eq!(out.matches("           b ").count(), 2);
    assert_eq!(out.matches(&format!("{}\n", RESET)).count(), 3);
    // a single blank line after the header's last child
    assert!(out.ends_with(&format!("{}\n\n", RESET)));
    assert_eq!(out.matches("\n\n").count(), 1);
}

#[test]
fn tiling_lines_emit_every_byte_once() {
    let mut printer = TermPrinter::new(vec![0xAB; 40]);
    let mut b = printer.style_builder();
    b.line(4, Ty::Binary, "head");
    b.line_until(40, Ty::Binary, "body");
    printer.finish(b);
    assert!(printer.render_ok());
    let out = printer.print();
    assert_eq!(out.matches("AB ").count(), 40);
}

#[test]
fn blocks_render_in_range_order() {
    let mut printer = TermPrinter::new((0u8..16).collect());
    let mut b = printer.style_builder();
    // attached out of order: the render sorts by range start
    let mut late = b.block(8, 16, Ty::Binary);
    late.line(8, Ty::Binary, "late");
    b.attach(late);
    let mut early = b.block(0, 8, Ty::Binary);
    early.line(8, Ty::Binary, "early");
    b.attach(early);
    printer.finish(b);
    assert!(printer.render_ok());
    let out = printer.print();
    let early_at = out.find("early").expect("early block missing");
    let late_at = out.find("late").expect("late block missing");
    assert!(early_at < late_at);
    // a blank line follows each block
    assert_eq!(out.matches("\n\n").count(), 2);
}

#[test]
fn hex_pad_stops_at_sixteen_for_short_chunks() {
    // two bytes pad with placeholders up to the boundary at 16, not past it
    let out = render_one_line(vec![0x01, 0x02], Ty::Binary, "b");
    assert_eq!(out.matches(".. ").count(), 14);
}

#[test]
fn hex_pad_absent_at_exact_boundary() {
    let out = render_one_line(vec![0x01; 16], Ty::Binary, "b");
    assert!(!out.contains(".."));
}

#[test]
fn hex_pad_stops_at_twenty_four() {
    // twenty bytes pad only up to the next boundary at 24
    let out = render_one_line(vec![0x01; 20], Ty::Binary, "b");
    assert_eq!(out.matches(".. ").count(), 4);
}

#[test]
fn long_tag_is_not_truncated() {
    let out = render_one_line(vec![0x01; 4], Ty::Binary, "averylongtagname");
    assert!(out.contains("  averylongtagname "));
}

#[test]
fn custom_numeric_hint_is_per_chunk() {
    // a 40-byte field splits into chunks of 32 and 8: only the 8-byte
    // chunk is narrow enough for the best-effort numeric hint
    let mut buf = vec![0u8; 40];
    buf[32] = 0x01;
    let out = render_one_line(buf, Ty::custom("blob"), "f");
    assert_eq!(out.matches("; blob ()").count(), 1);
    assert_eq!(out.matches("; blob (1)").count(), 1);
}

#[test]
fn replacement_glyph_gets_no_extra_space() {
    // regrouping inserts spaces only after every 8th character and once
    // more after the 16th; a replacement glyph is followed directly by
    // the next display character
    let out = render_one_line(vec![7], Ty::Ascii, "t");
    assert!(out.contains("| \u{fffd}....... ........  ........ ........ |"));
    assert!(!out.contains("\u{fffd} "));
}

#[test]
fn structural_rows_blank_tag_field_matches_line_width() {
    // a non-line row pads the tag column with 15 blanks, the width the
    // line rows use (two leading, twelve for the tag, one trailing)
    let printer = TermPrinter::new(b"Hi".to_vec());
    let out = printer.print();
    assert!(out.contains(&format!("..{}| Hi", " ".repeat(16))));
}
