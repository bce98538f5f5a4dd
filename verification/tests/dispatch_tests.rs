use opmark_egui::dispatch::{dispatch, resolve_image_box, BulletShape, DrawOp};
use opmark_egui::model::{
    AlignHorizontal, Heading, ImageStyle, IndentLevel, Listing, Mark, SeparatorDir, TextStyle,
};

#[test]
fn image_box_uses_both_explicit_dimensions_verbatim() {
    let style = ImageStyle { align_h: AlignHorizontal::Auto, width: Some(10), height: Some(5) };
    assert_eq!(resolve_image_box(&style, 100, 40), (10, 5));
}

#[test]
fn image_box_derives_height_from_width_and_aspect_ratio() {
    let style = ImageStyle { align_h: AlignHorizontal::Auto, width: Some(50), height: None };
    assert_eq!(resolve_image_box(&style, 100, 40), (50, 20));
}

#[test]
fn image_box_defaults_to_natural_size() {
    let style = ImageStyle { align_h: AlignHorizontal::Auto, width: None, height: None };
    assert_eq!(resolve_image_box(&style, 640, 480), (640, 480));
}

#[test]
fn explicit_height_alone_is_ignored() {
    let style = ImageStyle { align_h: AlignHorizontal::Auto, width: None, height: Some(99) };
    assert_eq!(resolve_image_box(&style, 640, 480), (640, 480));
}

#[test]
fn plain_text_is_one_inline_op_without_line_break() {
    let m = Mark::Text(String::from("hi"), TextStyle::plain());
    let (ops, brk) = dispatch(&m);
    assert_eq!(ops.len(), 1);
    assert!(matches!(ops[0], DrawOp::RichText { .. }));
    assert!(!brk);
}

#[test]
fn heading_text_forces_a_line_break() {
    let mut st = TextStyle::plain();
    st.heading = Heading::H1;
    let (_, brk) = dispatch(&Mark::Text(String::from("T"), st));
    assert!(brk);
}

#[test]
fn hyperlink_text_never_breaks_the_line() {
    let mut st = TextStyle::plain();
    st.heading = Heading::H1;
    st.hyperlink = String::from("https://example.org");
    let (ops, brk) = dispatch(&Mark::Text(String::from("T"), st));
    assert!(matches!(ops[0], DrawOp::Hyperlink { .. }));
    assert!(!brk);
}

#[test]
fn quote_draws_bar_then_text_and_breaks() {
    let mut st = TextStyle::plain();
    st.quote = true;
    let (ops, brk) = dispatch(&Mark::Text(String::from("q"), st));
    assert_eq!(ops.len(), 2);
    assert!(matches!(ops[0], DrawOp::QuoteBar));
    assert!(brk);
}

#[test]
fn bullet_shape_encodes_indent_level() {
    for (level, shape) in [
        (IndentLevel::I0, BulletShape::CircleFilled),
        (IndentLevel::I1, BulletShape::CircleStroked),
        (IndentLevel::I2, BulletShape::SquareFilled),
        (IndentLevel::I3, BulletShape::SquareStroked),
        (IndentLevel::I5, BulletShape::SquareStroked),
    ] {
        let mut st = TextStyle::plain();
        st.listing = Listing::Unordered(level);
        let (ops, brk) = dispatch(&Mark::Text(String::from("item"), st));
        assert_eq!(ops.len(), 3);
        match &ops[1] {
            DrawOp::Bullet { shape: s } => assert_eq!(*s, shape),
            other => panic!("expected a bullet, got {:?}", other),
        }
        assert!(brk);
    }
}

#[test]
fn ordered_listing_renders_number_then_text() {
    let mut st = TextStyle::plain();
    st.listing = Listing::Ordered(3, IndentLevel::I1);
    let (ops, brk) = dispatch(&Mark::Text(String::from("item"), st));
    assert_eq!(ops.len(), 3);
    assert!(matches!(ops[0], DrawOp::IndentBox { level: 1 }));
    assert!(matches!(ops[1], DrawOp::NumberLabel { n: 3, .. }));
    assert!(brk);
}

#[test]
fn newline_and_separator_ops() {
    let (ops, brk) = dispatch(&Mark::NewLine);
    assert!(matches!(ops[0], DrawOp::VerticalSpace));
    assert!(brk);
    let (ops, brk) = dispatch(&Mark::Separator(SeparatorDir::Vertical));
    assert!(matches!(ops[0], DrawOp::Rule { dir: SeparatorDir::Vertical }));
    assert!(brk);
}
