use hex_view::Color;
use hex_view::TermPrinter;
use hex_view::Ty;

#[test]
fn index_advances_with_lines() {
    let printer = TermPrinter::new(vec![0u8; 16]);
    let mut b = printer.style_builder();
    assert_eq!(b.index(), 0);
    b.line(4, Ty::Binary, "four");
    assert_eq!(b.index(), 4);
    b.line(2, Ty::Binary, "two");
    assert_eq!(b.index(), 6);
    b.line_until(10, Ty::Binary, "rest");
    assert_eq!(b.index(), 10);
}

#[test]
fn nested_builder_resets_color_and_cursor() {
    let printer = TermPrinter::new(vec![0u8; 16]);
    let mut b = printer.style_builder();
    b.set_color(Color::Red);
    b.line(4, Ty::Binary, "head");
    assert_eq!(b.index(), 4);
    let h = b.header(4, 12, Ty::Binary);
    assert_eq!(h.index(), 0);
    assert_eq!(h.part_color, Color::White);
    let blk = b.block(12, 16, Ty::Binary);
    assert_eq!(blk.index(), 0);
    assert_eq!(blk.part_color, Color::White);
}

#[test]
fn custom_carries_its_label() {
    match Ty::custom("packet") {
        Ty::Custom(l) => assert_eq!(l, "packet"),
        _ => panic!("custom must build the labeled variant"),
    }
}

#[test]
fn attach_at_same_range_replaces() {
    let mut printer = TermPrinter::new(vec![0u8; 8]);
    let mut b = printer.style_builder();
    let mut first = b.header(0, 8, Ty::Binary);
    first.line(8, Ty::Binary, "first");
    b.attach(first);
    let mut second = b.header(0, 8, Ty::Binary);
    second.line(8, Ty::Binary, "second");
    b.attach(second);
    printer.finish(b);
    assert!(printer.render_ok());
    let out = printer.print();
    assert!(out.contains("second"));
    assert!(!out.contains("first"));
}

#[test]
fn render_ok_rejects_wrong_numeric_width() {
    let mut printer = TermPrinter::new(vec![0u8; 8]);
    let mut b = printer.style_builder();
    b.line(3, Ty::BeNum, "bad");
    printer.finish(b);
    assert!(!printer.render_ok());
}

#[test]
fn render_ok_accepts_fixed_numeric_widths() {
    let mut printer = TermPrinter::new(vec![0u8; 15]);
    let mut b = printer.style_builder();
    b.line(1, Ty::BeNum, "one");
    b.line(2, Ty::LeNum, "two");
    b.line(4, Ty::BeNum, "four");
    b.line(8, Ty::LeNum, "eight");
    printer.finish(b);
    assert!(printer.render_ok());
}

#[test]
fn render_ok_rejects_wrong_ipv4_width() {
    let mut printer = TermPrinter::new(vec![0u8; 8]);
    let mut b = printer.style_builder();
    b.line(5, Ty::Ip4, "addr");
    printer.finish(b);
    assert!(!printer.render_ok());
}
