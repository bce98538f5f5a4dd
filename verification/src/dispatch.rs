//! The dispatch mapping shared by the two backends: a pure function from a
//! mark (with its style) to the sequence of primitive drawing operations it
//! performs and whether it forces a layout line break. The interactive
//! renderer executes these operations against a live surface each frame; the
//! standalone compiler bakes the same statements into generated text.

use vstd::prelude::*;

use crate::builder::spec_mark_line_break;
use crate::emit::spec_label_break;
use crate::model::{Heading, ImageStyle, IndentLevel, Listing, Mark, SeparatorDir, TextStyle};

verus! {

/// The bullet glyph of an unordered listing item; the shape encodes the
/// indent level.
#[derive(Clone, Copy, Debug, PartialEq, Eq, Structural)]
pub enum BulletShape {
    CircleFilled,
    CircleStroked,
    SquareFilled,
    SquareStroked,
}

/// One primitive drawing operation, as plain values. A surface executes
/// these in order within one layout row.
#[derive(Clone, Debug, PartialEq)]
pub enum DrawOp {
    /// Monospace text on a background panel measured from the text, padded
    /// and widened to the available content width.
    CodePanel { code: String },
    /// An image looked up by resource key, drawn in a box resolved from the
    /// style and the natural size, with the title as hover text.
    ImageBox { key: String, title: String, style: ImageStyle },
    /// One run of rich text with the style's emphasis flags and heading.
    RichText { text: String, style: TextStyle },
    /// A hyperlink showing `text` and pointing at `target`.
    Hyperlink { text: String, target: String },
    /// An indent box of width `level` grid units.
    IndentBox { level: u8 },
    /// The bullet glyph of an unordered listing item.
    Bullet { shape: BulletShape },
    /// The sequence number of an ordered listing item, rendered as `N.`.
    NumberLabel { n: u8, style: TextStyle },
    /// A vertical bar occupying one grid cell before quoted text.
    QuoteBar,
    /// One blank line of reserved vertical space.
    VerticalSpace,
    /// A separator rule of the given direction.
    Rule { dir: SeparatorDir },
}

/// The bullet shape for an indent level: filled circle, stroked circle,
/// filled square, then stroked square from the third level on.
pub open spec fn spec_bullet_shape(level: IndentLevel) -> BulletShape {
    match level {
        IndentLevel::I0 => BulletShape::CircleFilled,
        IndentLevel::I1 => BulletShape::CircleStroked,
        IndentLevel::I2 => BulletShape::SquareFilled,
        _ => BulletShape::SquareStroked,
    }
}

/// The operation for one run of styled text: rich text when the style has no
/// hyperlink target, a hyperlink otherwise.
pub open spec fn spec_text_op(t: String, st: TextStyle) -> DrawOp {
    if st.hyperlink@.len() == 0 {
        DrawOp::RichText { text: t, style: st }
    } else {
        DrawOp::Hyperlink { text: t, target: st.hyperlink }
    }
}

/// The dispatch mapping: the primitive operations one mark performs, in
/// order. Reveal-step visibility is not part of this mapping; each backend
/// applies it around the mapping's output.
pub open spec fn spec_dispatch(m: Mark) -> Seq<DrawOp> {
    match m {
        Mark::CodeBlock(c, _l) => seq![DrawOp::CodePanel { code: c }],
        Mark::Image(k, t, st) => seq![DrawOp::ImageBox { key: k, title: t, style: st }],
        Mark::NewLine => seq![DrawOp::VerticalSpace],
        Mark::Separator(d) => seq![DrawOp::Rule { dir: d }],
        Mark::Text(t, st) => match st.listing {
            Listing::Ordered(n, level) => seq![
                DrawOp::IndentBox { level: level.spec_int() },
                DrawOp::NumberLabel { n, style: st },
                spec_text_op(t, st),
            ],
            Listing::Unordered(level) => seq![
                DrawOp::IndentBox { level: level.spec_int() },
                DrawOp::Bullet { shape: spec_bullet_shape(level) },
                spec_text_op(t, st),
            ],
            Listing::Plain => if st.quote {
                seq![DrawOp::QuoteBar, spec_text_op(t, st)]
            } else {
                seq![spec_text_op(t, st)]
            },
        },
    }
}

/// Copy a text style; the contract pins every field.
pub fn clone_text_style(st: &TextStyle) -> (r: TextStyle)
    ensures
        r == *st,
{
    TextStyle {
        bold: st.bold,
        code: st.code,
        heading: st.heading,
        hyperlink: st.hyperlink.clone(),
        italics: st.italics,
        listing: st.listing,
        quote: st.quote,
        small: st.small,
        strikethrough: st.strikethrough,
        underline: st.underline,
    }
}

fn bullet_shape(level: &IndentLevel) -> (r: BulletShape)
    ensures
        r == spec_bullet_shape(*level),
{
    match level {
        IndentLevel::I0 => BulletShape::CircleFilled,
        IndentLevel::I1 => BulletShape::CircleStroked,
        IndentLevel::I2 => BulletShape::SquareFilled,
        _ => BulletShape::SquareStroked,
    }
}

fn text_op(t: &String, st: &TextStyle) -> (r: DrawOp)
    ensures
        r == spec_text_op(*t, *st),
{
    if st.hyperlink.as_str().unicode_len() == 0 {
        DrawOp::RichText { text: t.clone(), style: clone_text_style(st) }
    } else {
        DrawOp::Hyperlink { text: t.clone(), target: st.hyperlink.clone() }
    }
}

/// Execute the dispatch mapping for one mark: its primitive operations and
/// whether it forces a line break, exactly as the generated code renders it.
pub fn dispatch(m: &Mark) -> (r: (Vec<DrawOp>, bool))
    ensures
        r.0@ == spec_dispatch(*m),
        r.1 == spec_mark_line_break(*m),
{
    let mut ops: Vec<DrawOp> = Vec::new();
    let mut brk = true;
    match m {
        Mark::CodeBlock(c, _l) => {
            ops.push(DrawOp::CodePanel { code: c.clone() });
        },
        Mark::Image(k, t, st) => {
            ops.push(DrawOp::ImageBox { key: k.clone(), title: t.clone(), style: *st });
        },
        Mark::NewLine => {
            ops.push(DrawOp::VerticalSpace);
        },
        Mark::Separator(d) => {
            ops.push(DrawOp::Rule { dir: *d });
        },
        Mark::Text(t, st) => {
            match &st.listing {
                Listing::Ordered(n, level) => {
                    ops.push(DrawOp::IndentBox { level: level.to_int() });
                    ops.push(DrawOp::NumberLabel { n: *n, style: clone_text_style(st) });
                    ops.push(text_op(t, st));
                },
                Listing::Unordered(level) => {
                    ops.push(DrawOp::IndentBox { level: level.to_int() });
                    ops.push(DrawOp::Bullet { shape: bullet_shape(level) });
                    ops.push(text_op(t, st));
                },
                Listing::Plain => {
                    if st.quote {
                        ops.push(DrawOp::QuoteBar);
                        ops.push(text_op(t, st));
                    } else {
                        ops.push(text_op(t, st));
                        brk = spec_label_break_exec(st);
                    }
                },
            }
        },
    }
    proof {
        assert(ops@ =~= spec_dispatch(*m));
    }
    (ops, brk)
}

/// Whether a bare text run forces a line break: it is a heading and not a
/// hyperlink.
fn spec_label_break_exec(st: &TextStyle) -> (b: bool)
    ensures
        b == spec_label_break(*st),
{
    if st.hyperlink.as_str().unicode_len() == 0 {
        match st.heading {
            Heading::H0 => false,
            _ => true,
        }
    } else {
        false
    }
}

/// The drawn box of an image, in whole pixels: both explicit dimensions are
/// used verbatim; an explicit width alone derives the height from the
/// natural aspect ratio; with neither, the natural size is used.
pub open spec fn spec_image_box(style: ImageStyle, nw: int, nh: int) -> (int, int) {
    match style.width {
        Some(w) => (
            w as int,
            match style.height {
                Some(h) => h as int,
                None => w * nh / nw,
            },
        ),
        None => (nw, nh),
    }
}

/// Resolve the drawn box of an image from its style and natural pixel size.
pub fn resolve_image_box(style: &ImageStyle, natural_w: u32, natural_h: u32) -> (r: (u32, u32))
    requires
        natural_w > 0,
        spec_image_box(*style, natural_w as int, natural_h as int).1 <= u32::MAX,
    ensures
        r.0 == spec_image_box(*style, natural_w as int, natural_h as int).0,
        r.1 == spec_image_box(*style, natural_w as int, natural_h as int).1,
{
    match style.width {
        Some(w) => {
            let h: u32 = match style.height {
                Some(h) => h,
                None => {
                    let wu: u64 = w as u64;
                    let nhu: u64 = natural_h as u64;
                    let nwu: u64 = natural_w as u64;
                    proof {
                        assert(wu * nhu <= 0xffff_ffff * 0xffff_ffff) by (nonlinear_arith)
                            requires
                                wu <= 0xffff_ffff,
                                nhu <= 0xffff_ffff,
                        ;
                    }
                    let wide: u64 = wu * nhu / nwu;
                    wide as u32
                },
            };
            (w, h)
        },
        None => (natural_w, natural_h),
    }
}

} // verus!
