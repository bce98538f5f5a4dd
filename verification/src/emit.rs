//! Code emitters of the standalone compiler: each appends to an output
//! buffer the literal program text that reproduces one mark's drawing, with
//! the mark's own text and parameters inlined as literal constants, and
//! reports whether the mark forces a layout line break.
//!
//! Each emitter's contract states the emitted text exactly, over the same
//! fragment constants its body appends. Embedded quote characters in inlined
//! literal text are not escaped; that gap is deliberate and kept.

use vstd::prelude::*;

use crate::model::{AlignHorizontal, Heading, ImageStyle, IndentLevel, SeparatorDir, TextStyle};
use crate::strutil::{spec_dec, spec_replace, replace_all, u64_to_dec};
use vstd::seq_lib::lemma_concat_associative;

verus! {

pub const CODE_BLOCK_0: &'static str = "let where_to_put_background = ui.painter().add(egui::Shape::Noop);";

pub const CODE_BLOCK_1: &'static str = "let mut rect = ui.monospace(\"";

pub const CODE_BLOCK_2: &'static str = "\").rect;";

pub const CODE_BLOCK_3: &'static str = "rect = rect.expand(NORMAL_SPACING_X);";

pub const CODE_BLOCK_4: &'static str = "rect.max.x = ui.max_rect().max.x;";

pub const CODE_BLOCK_5: &'static str = "let code_bg_color = ui.visuals().code_bg_color;";

pub const CODE_BLOCK_6: &'static str = "ui.painter().set(";

pub const CODE_BLOCK_7: &'static str = "where_to_put_background,";

pub const CODE_BLOCK_8: &'static str = "egui::Shape::rect_filled(rect, 2.0, code_bg_color),";

pub const CLOSE_CALL: &'static str = ");";

/// The program text that draws a code block: monospace text on a background
/// panel measured from the text, expanded by the normal padding and widened
/// to the content width.
pub open spec fn spec_code_block(c: Seq<char>) -> Seq<char> {
    CODE_BLOCK_0@ + CODE_BLOCK_1@ + c + CODE_BLOCK_2@ + CODE_BLOCK_3@ + CODE_BLOCK_4@
        + CODE_BLOCK_5@ + CODE_BLOCK_6@ + CODE_BLOCK_7@ + CODE_BLOCK_8@ + CLOSE_CALL@
}

/// Emit the drawing text for a code block; a code block always breaks the
/// line. The language tag plays no part in the output.
pub fn code_block(code_str: &String, _language: &Option<String>, code: &mut String) -> (b: bool)
    ensures
        final(code)@ == old(code)@ + spec_code_block(code_str@),
        b == true,
{
    code.append(CODE_BLOCK_0);
    code.append(CODE_BLOCK_1);
    code.append(code_str.as_str());
    code.append(CODE_BLOCK_2);
    code.append(CODE_BLOCK_3);
    code.append(CODE_BLOCK_4);
    code.append(CODE_BLOCK_5);
    code.append(CODE_BLOCK_6);
    code.append(CODE_BLOCK_7);
    code.append(CODE_BLOCK_8);
    code.append(CLOSE_CALL);
    proof {
        assert(code@ =~= old(code)@ + spec_code_block(code_str@));
    }
    true
}

pub const LINE_BREAK_STMT: &'static str = "outer_ui.end_row();";

/// The program text that ends a layout row.
pub open spec fn spec_line_break() -> Seq<char> {
    LINE_BREAK_STMT@
}

/// Emit a layout row break.
pub fn line_break(code: &mut String)
    ensures
        final(code)@ == old(code)@ + spec_line_break(),
{
    code.append(LINE_BREAK_STMT);
}

pub const NEW_LINE_STMT: &'static str = "ui.allocate_exact_size(egui::vec2(0.0, NEW_LINE_HEIGHT), egui::Sense::hover());";

/// The program text that reserves one blank line of vertical space.
pub open spec fn spec_new_line() -> Seq<char> {
    NEW_LINE_STMT@
}

/// Emit the drawing text for an explicit blank line; it always breaks the
/// line.
pub fn new_line(code: &mut String) -> (b: bool)
    ensures
        final(code)@ == old(code)@ + spec_new_line(),
        b == true,
{
    code.append(NEW_LINE_STMT);
    true
}

pub const SEPARATOR_H: &'static str = "ui.add(egui::Separator::default().horizontal());";

pub const SEPARATOR_V: &'static str = "ui.separator();";

/// The program text that draws a separator rule of the given direction.
pub open spec fn spec_separator(dir: SeparatorDir) -> Seq<char> {
    match dir {
        SeparatorDir::Horizontal => SEPARATOR_H@,
        SeparatorDir::Vertical => SEPARATOR_V@,
    }
}

/// Emit the drawing text for a separator; it always breaks the line.
pub fn separator(dir: &SeparatorDir, code: &mut String) -> (b: bool)
    ensures
        final(code)@ == old(code)@ + spec_separator(*dir),
        b == true,
{
    match dir {
        SeparatorDir::Horizontal => code.append(SEPARATOR_H),
        SeparatorDir::Vertical => code.append(SEPARATOR_V),
    }
    true
}

pub const TRANSITION_0: &'static str = "if self.scene_idx < ";

pub const TRANSITION_1: &'static str = " {";

pub const HIDE_STMT: &'static str = "ui.set_visible(false);";

pub const CLOSE_BRACE: &'static str = "}";

/// The guard text that suppresses paint while the linear scene counter is
/// below `border`; empty when `border` is `0`, since no scene index is below
/// `0`.
pub open spec fn spec_transition(border: int) -> Seq<char> {
    if border > 0 {
        TRANSITION_0@ + spec_dec(border) + TRANSITION_1@ + HIDE_STMT@ + CLOSE_BRACE@
    } else {
        Seq::<char>::empty()
    }
}

/// Emit the reveal guard for a mark whose global reveal threshold is
/// `transition_border`.
pub fn transition(transition_border: usize, code: &mut String)
    ensures
        final(code)@ == old(code)@ + spec_transition(transition_border as int),
{
    if transition_border > 0 {
        code.append(TRANSITION_0);
        let num = u64_to_dec(transition_border as u64);
        code.append(num.as_str());
        code.append(TRANSITION_1);
        code.append(HIDE_STMT);
        code.append(CLOSE_BRACE);
        proof {
            assert(code@ =~= old(code)@ + spec_transition(transition_border as int));
        }
    } else {
        proof {
            assert(code@ =~= old(code)@ + spec_transition(transition_border as int));
        }
    }
}

pub const LABEL_0: &'static str = "let rich_text = egui::RichText::new(\"";

pub const LABEL_1: &'static str = "\");";

pub const LABEL_BOLD: &'static str = "let rich_text = rich_text.strong();";

pub const LABEL_CODE: &'static str = "let rich_text = rich_text.code();";

pub const LABEL_ITALICS: &'static str = "let rich_text = rich_text.italics();";

pub const LABEL_SMALL: &'static str = "let rich_text = rich_text.small();";

pub const LABEL_STRIKE: &'static str = "let rich_text = rich_text.strikethrough();";

pub const LABEL_UNDERLINE: &'static str = "let rich_text = rich_text.underline();";

pub const LABEL_H1: &'static str = "let rich_text = rich_text.heading().strong();";

pub const LABEL_H2: &'static str = "let rich_text = rich_text.heading();";

pub const LABEL_SHOW: &'static str = "ui.label(rich_text);";

pub const HYPERLINK_0: &'static str = "ui.hyperlink_to(\"";

pub const HYPERLINK_1: &'static str = "\", \"";

pub const HYPERLINK_2: &'static str = "\");";

/// The rich-text emphasis statements a style selects, in fixed order.
pub open spec fn spec_label_styling(style: TextStyle) -> Seq<char> {
    (if style.bold {
        LABEL_BOLD@
    } else {
        Seq::<char>::empty()
    }) + (if style.code {
        LABEL_CODE@
    } else {
        Seq::<char>::empty()
    }) + (if style.italics {
        LABEL_ITALICS@
    } else {
        Seq::<char>::empty()
    }) + (if style.small {
        LABEL_SMALL@
    } else {
        Seq::<char>::empty()
    }) + (if style.strikethrough {
        LABEL_STRIKE@
    } else {
        Seq::<char>::empty()
    }) + (if style.underline {
        LABEL_UNDERLINE@
    } else {
        Seq::<char>::empty()
    }) + (match style.heading {
        Heading::H1 => LABEL_H1@,
        Heading::H2 => LABEL_H2@,
        _ => Seq::<char>::empty(),
    })
}

/// The program text that draws one run of styled text: a rich-text label
/// when the style has no hyperlink target, a hyperlink otherwise.
pub open spec fn spec_label(text: Seq<char>, style: TextStyle) -> Seq<char> {
    if style.hyperlink@.len() == 0 {
        LABEL_0@ + text + LABEL_1@ + spec_label_styling(style) + LABEL_SHOW@
    } else {
        HYPERLINK_0@ + text + HYPERLINK_1@ + style.hyperlink@ + HYPERLINK_2@
    }
}

/// A bare text run forces a line break exactly when it is a heading and not
/// a hyperlink.
pub open spec fn spec_label_break(style: TextStyle) -> bool {
    style.hyperlink@.len() == 0 && style.heading != Heading::H0
}

/// Emit the drawing text for one run of styled text.
pub fn label(text: &str, style: &TextStyle, code_str: &mut String) -> (b: bool)
    ensures
        final(code_str)@ == old(code_str)@ + spec_label(text@, *style),
        b == spec_label_break(*style),
{
    let mut line_brk = false;
    if style.hyperlink.as_str().unicode_len() == 0 {
        code_str.append(LABEL_0);
        code_str.append(text);
        code_str.append(LABEL_1);
        let ghost base = old(code_str)@ + LABEL_0@ + text@ + LABEL_1@;
        let ghost mut expect = base;
        if style.bold {
            code_str.append(LABEL_BOLD);
        }
        proof {
            if !style.bold {
                assert(expect + Seq::<char>::empty() =~= expect);
            }
            expect = expect + (if style.bold {
                LABEL_BOLD@
            } else {
                Seq::<char>::empty()
            });
            assert(code_str@ == expect);
        }
        if style.code {
            code_str.append(LABEL_CODE);
        }
        proof {
            if !style.code {
                assert(expect + Seq::<char>::empty() =~= expect);
            }
            expect = expect + (if style.code {
                LABEL_CODE@
            } else {
                Seq::<char>::empty()
            });
            assert(code_str@ == expect);
        }
        if style.italics {
            code_str.append(LABEL_ITALICS);
        }
        proof {
            if !style.italics {
                assert(expect + Seq::<char>::empty() =~= expect);
            }
            expect = expect + (if style.italics {
                LABEL_ITALICS@
            } else {
                Seq::<char>::empty()
            });
            assert(code_str@ == expect);
        }
        if style.small {
            code_str.append(LABEL_SMALL);
        }
        proof {
            if !style.small {
                assert(expect + Seq::<char>::empty() =~= expect);
            }
            expect = expect + (if style.small {
                LABEL_SMALL@
            } else {
                Seq::<char>::empty()
            });
            assert(code_str@ == expect);
        }
        if style.strikethrough {
            code_str.append(LABEL_STRIKE);
        }
        proof {
            if !style.strikethrough {
                assert(expect + Seq::<char>::empty() =~= expect);
            }
            expect = expect + (if style.strikethrough {
                LABEL_STRIKE@
            } else {
                Seq::<char>::empty()
            });
            assert(code_str@ == expect);
        }
        if style.underline {
            code_str.append(LABEL_UNDERLINE);
        }
        proof {
            if !style.underline {
                assert(expect + Seq::<char>::empty() =~= expect);
            }
            expect = expect + (if style.underline {
                LABEL_UNDERLINE@
            } else {
                Seq::<char>::empty()
            });
            assert(code_str@ == expect);
        }
        match style.heading {
            Heading::H1 => code_str.append(LABEL_H1),
            Heading::H2 => code_str.append(LABEL_H2),
            _ => {},
        }
        proof {
            match style.heading {
                Heading::H1 => {},
                Heading::H2 => {},
                _ => {
                    assert(expect + Seq::<char>::empty() =~= expect);
                },
            }
            expect = expect + (match style.heading {
                Heading::H1 => LABEL_H1@,
                Heading::H2 => LABEL_H2@,
                _ => Seq::<char>::empty(),
            });
            assert(code_str@ == expect);
        }
        match style.heading {
            Heading::H0 => {},
            _ => {
                line_brk = true;
            },
        }
        code_str.append(LABEL_SHOW);
        proof {
            let s1 = if style.bold {
                LABEL_BOLD@
            } else {
                Seq::<char>::empty()
            };
            let s2 = if style.code {
                LABEL_CODE@
            } else {
                Seq::<char>::empty()
            };
            let s3 = if style.italics {
                LABEL_ITALICS@
            } else {
                Seq::<char>::empty()
            };
            let s4 = if style.small {
                LABEL_SMALL@
            } else {
                Seq::<char>::empty()
            };
            let s5 = if style.strikethrough {
                LABEL_STRIKE@
            } else {
                Seq::<char>::empty()
            };
            let s6 = if style.underline {
                LABEL_UNDERLINE@
            } else {
                Seq::<char>::empty()
            };
            let s7 = match style.heading {
                Heading::H1 => LABEL_H1@,
                Heading::H2 => LABEL_H2@,
                _ => Seq::<char>::empty(),
            };
            let sty = spec_label_styling(*style);
            lemma_concat_associative(base, s1, s2);
            lemma_concat_associative(base, s1 + s2, s3);
            lemma_concat_associative(base, s1 + s2 + s3, s4);
            lemma_concat_associative(base, s1 + s2 + s3 + s4, s5);
            lemma_concat_associative(base, s1 + s2 + s3 + s4 + s5, s6);
            lemma_concat_associative(base, s1 + s2 + s3 + s4 + s5 + s6, s7);
            assert(expect == base + sty);
            let v = LABEL_0@ + text@ + LABEL_1@;
            lemma_concat_associative(old(code_str)@, LABEL_0@, text@);
            lemma_concat_associative(old(code_str)@, LABEL_0@ + text@, LABEL_1@);
            assert(base == old(code_str)@ + v);
            lemma_concat_associative(old(code_str)@, v, sty);
            lemma_concat_associative(old(code_str)@, v + sty, LABEL_SHOW@);
            assert(code_str@ == old(code_str)@ + spec_label(text@, *style));
        }
    } else {
        code_str.append(HYPERLINK_0);
        code_str.append(text);
        code_str.append(HYPERLINK_1);
        code_str.append(style.hyperlink.as_str());
        code_str.append(HYPERLINK_2);
        proof {
            assert(code_str@ =~= old(code_str)@ + spec_label(text@, *style));
        }
    }
    line_brk
}

pub const INDENT_0: &'static str = "indent(";

pub const INDENT_1: &'static str = ".0, ui);";

/// The program text that reserves an indent box whose width scales with the
/// indent level.
pub open spec fn spec_indent(level: IndentLevel) -> Seq<char> {
    INDENT_0@ + spec_dec(level.spec_int() as int) + INDENT_1@
}

/// Emit the indent-box text for a listing item.
pub fn indent(indent_level: &IndentLevel, code: &mut String)
    ensures
        final(code)@ == old(code)@ + spec_indent(*indent_level),
{
    code.append(INDENT_0);
    let num = u64_to_dec(indent_level.to_int() as u64);
    code.append(num.as_str());
    code.append(INDENT_1);
    proof {
        assert(code@ =~= old(code)@ + spec_indent(*indent_level));
    }
}

pub const SPACING_BIG: &'static str = "ui.spacing_mut().item_spacing.x = BIG_SPACING_X;";

pub const SPACING_NORMAL: &'static str = "ui.spacing_mut().item_spacing.x = NORMAL_SPACING_X;";

pub const ORDERED_DOT: &'static str = ".";

/// The program text for an ordered listing item: the indent box, then the
/// sequence number rendered as `N.`, then the item text, with wide spacing
/// around the number.
pub open spec fn spec_ordered_listing(n: int, text: Seq<char>, style: TextStyle) -> Seq<char> {
    spec_indent(ordered_level(style)) + SPACING_BIG@ + spec_label(
        spec_dec(n) + ORDERED_DOT@,
        style,
    ) + SPACING_NORMAL@ + spec_label(text, style)
}

/// The indent level a listing style carries (`I0` when not a listing).
pub open spec fn ordered_level(style: TextStyle) -> IndentLevel {
    match style.listing {
        crate::model::Listing::Ordered(_, level) => level,
        crate::model::Listing::Unordered(level) => level,
        crate::model::Listing::Plain => IndentLevel::I0,
    }
}

/// Emit the drawing text for an ordered listing item; it always breaks the
/// line.
pub fn ordered_listing(
    n: u8,
    text: &str,
    style: &TextStyle,
    indent_level: &IndentLevel,
    code: &mut String,
) -> (b: bool)
    ensures
        final(code)@ == old(code)@ + spec_indent(*indent_level) + SPACING_BIG@ + spec_label(
            spec_dec(n as int) + ORDERED_DOT@,
            *style,
        ) + SPACING_NORMAL@ + spec_label(text@, *style),
        b == true,
{
    indent(indent_level, code);
    code.append(SPACING_BIG);
    let mut num = u64_to_dec(n as u64);
    num.append(ORDERED_DOT);
    label(num.as_str(), style, code);
    code.append(SPACING_NORMAL);
    label(text, style, code);
    proof {
        assert(code@ =~= old(code)@ + spec_indent(*indent_level) + SPACING_BIG@ + spec_label(
            spec_dec(n as int) + ORDERED_DOT@,
            *style,
        ) + SPACING_NORMAL@ + spec_label(text@, *style));
    }
    true
}

pub const QUOTE_0: &'static str = "let (rect, _) = ui.allocate_exact_size(";

pub const QUOTE_1: &'static str = "egui::vec2(INDENT_GRID_SIZE, INDENT_GRID_SIZE),";

pub const QUOTE_2: &'static str = "egui::Sense::hover(),";

pub const QUOTE_3: &'static str = "let rect = rect.expand2(ui.style().spacing.item_spacing * 0.5);";

pub const QUOTE_4: &'static str = "ui.painter().line_segment(";

pub const QUOTE_5: &'static str = "[rect.center_top(), rect.center_bottom()],";

pub const QUOTE_6: &'static str = "(1.0, ui.visuals().weak_text_color()),";

/// The program text for a quote: a vertical bar in one grid cell before the
/// text, with wide spacing before the bar.
pub open spec fn spec_quote(text: Seq<char>, style: TextStyle) -> Seq<char> {
    SPACING_BIG@ + QUOTE_0@ + QUOTE_1@ + QUOTE_2@ + CLOSE_CALL@ + QUOTE_3@ + QUOTE_4@ + QUOTE_5@
        + QUOTE_6@ + CLOSE_CALL@ + SPACING_NORMAL@ + spec_label(text, style)
}

/// Emit the drawing text for a quoted text run; it always breaks the line.
pub fn quote(text: &str, style: &TextStyle, code: &mut String) -> (b: bool)
    ensures
        final(code)@ == old(code)@ + spec_quote(text@, *style),
        b == true,
{
    code.append(SPACING_BIG);
    code.append(QUOTE_0);
    code.append(QUOTE_1);
    code.append(QUOTE_2);
    code.append(CLOSE_CALL);
    code.append(QUOTE_3);
    code.append(QUOTE_4);
    code.append(QUOTE_5);
    code.append(QUOTE_6);
    code.append(CLOSE_CALL);
    code.append(SPACING_NORMAL);
    label(text, style, code);
    proof {
        assert(code@ =~= old(code)@ + spec_quote(text@, *style));
    }
    true
}

pub const UNORDERED_0: &'static str = "let rect = indent(";

pub const UNORDERED_1: &'static str = "let mark_center = egui::Pos2::new(rect.right(), rect.center().y);";

pub const UNORDERED_2: &'static str = "let mark_size = 4.0;";

pub const UNORDERED_3: &'static str = "let color = ui.visuals().strong_text_color();";

pub const BULLET_CIRCLE_FILLED: &'static str = "ui.painter().circle_filled(mark_center, mark_size / 2.0, color);";

pub const BULLET_CIRCLE_STROKED: &'static str = "ui.painter().circle_stroke(mark_center, mark_size / 2.0, egui::Stroke::new(0.5, color));";

pub const BULLET_SQUARE_FILLED: &'static str = "ui.painter().rect_filled(egui::Rect::from_center_size(mark_center, egui::vec2(mark_size, mark_size)), 0.0, color);";

pub const BULLET_SQUARE_STROKED: &'static str = "ui.painter().rect_stroke(egui::Rect::from_center_size(mark_center, egui::vec2(mark_size, mark_size)), 0.0, egui::Stroke::new(0.5, color));";

/// The bullet-glyph statement whose shape encodes the indent level: filled
/// circle, stroked circle, filled square, then stroked square from the third
/// level on.
pub open spec fn spec_bullet(level: IndentLevel) -> Seq<char> {
    match level {
        IndentLevel::I0 => BULLET_CIRCLE_FILLED@,
        IndentLevel::I1 => BULLET_CIRCLE_STROKED@,
        IndentLevel::I2 => BULLET_SQUARE_FILLED@,
        _ => BULLET_SQUARE_STROKED@,
    }
}

/// The program text for an unordered listing item: the indent box, the
/// bullet glyph for the level, then the item text.
pub open spec fn spec_unordered_listing(text: Seq<char>, style: TextStyle, level: IndentLevel) -> Seq<char> {
    SPACING_BIG@ + UNORDERED_0@ + spec_dec(level.spec_int() as int) + INDENT_1@ + UNORDERED_1@
        + UNORDERED_2@ + UNORDERED_3@ + spec_bullet(level) + SPACING_NORMAL@ + spec_label(
        text,
        style,
    )
}

/// Emit the drawing text for an unordered listing item; it always breaks
/// the line.
pub fn unordered_listing(
    text: &str,
    style: &TextStyle,
    indent_level: &IndentLevel,
    code: &mut String,
) -> (b: bool)
    ensures
        final(code)@ == old(code)@ + spec_unordered_listing(text@, *style, *indent_level),
        b == true,
{
    code.append(SPACING_BIG);
    code.append(UNORDERED_0);
    let num = u64_to_dec(indent_level.to_int() as u64);
    code.append(num.as_str());
    code.append(INDENT_1);
    code.append(UNORDERED_1);
    code.append(UNORDERED_2);
    code.append(UNORDERED_3);
    match indent_level {
        IndentLevel::I0 => code.append(BULLET_CIRCLE_FILLED),
        IndentLevel::I1 => code.append(BULLET_CIRCLE_STROKED),
        IndentLevel::I2 => code.append(BULLET_SQUARE_FILLED),
        _ => code.append(BULLET_SQUARE_STROKED),
    }
    code.append(SPACING_NORMAL);
    label(text, style, code);
    proof {
        assert(code@ =~= old(code)@ + spec_unordered_listing(text@, *style, *indent_level));
    }
    true
}

pub const IMAGE_0: &'static str = "let texture = self.textures.get(&\"";

pub const IMAGE_1: &'static str = "\".to_string()).unwrap();";

pub const IMAGE_W_0: &'static str = "let width = ";

pub const IMAGE_H_0: &'static str = "let height = ";

pub const FLOAT_SUFFIX: &'static str = ".0;";

pub const IMAGE_H_DERIVED: &'static str = "let height = width / texture.size.x * texture.size.y;";

pub const IMAGE_W_NATURAL: &'static str = "let width = texture.size.x;";

pub const IMAGE_H_NATURAL: &'static str = "let height = texture.size.y;";

pub const LAYOUT_LEFT: &'static str = "let layout = egui::Layout::left_to_right();";

pub const LAYOUT_RIGHT: &'static str = "let layout = egui::Layout::right_to_left();";

pub const LAYOUT_CENTER: &'static str = "let layout = egui::Layout::centered_and_justified(egui::Direction::LeftToRight);";

pub const IMAGE_2: &'static str = "ui.with_layout(layout, |ui| {";

pub const IMAGE_3: &'static str = "ui.image(texture.id, egui::Vec2::new(width, height)).on_hover_text(\"";

pub const IMAGE_4: &'static str = "\");";

pub const IMAGE_5: &'static str = "});";

/// The box-size statements image style selects: both dimensions given are
/// used verbatim; width alone derives the height from the natural aspect
/// ratio; neither uses the natural pixel size.
pub open spec fn spec_image_size(style: ImageStyle) -> Seq<char> {
    match style.width {
        Some(w) => IMAGE_W_0@ + spec_dec(w as int) + FLOAT_SUFFIX@ + (match style.height {
            Some(h) => IMAGE_H_0@ + spec_dec(h as int) + FLOAT_SUFFIX@,
            None => IMAGE_H_DERIVED@,
        }),
        None => IMAGE_W_NATURAL@ + IMAGE_H_NATURAL@,
    }
}

/// The layout statement the image's horizontal alignment selects.
pub open spec fn spec_image_layout(align: AlignHorizontal) -> Seq<char> {
    match align {
        AlignHorizontal::Auto => LAYOUT_LEFT@,
        AlignHorizontal::Left => LAYOUT_LEFT@,
        AlignHorizontal::Right => LAYOUT_RIGHT@,
        AlignHorizontal::Center => LAYOUT_CENTER@,
    }
}

/// The program text for an image: a texture lookup by resource key, the box
/// size, the alignment-derived layout, and the draw with the title as hover
/// text.
pub open spec fn spec_image(key: Seq<char>, title: Seq<char>, style: ImageStyle) -> Seq<char> {
    IMAGE_0@ + key + IMAGE_1@ + spec_image_size(style) + spec_image_layout(style.align_h)
        + IMAGE_2@ + IMAGE_3@ + title + IMAGE_4@ + IMAGE_5@
}

/// Emit the drawing text for an image mark; it always breaks the line.
pub fn image(key: &String, title: &String, style: &ImageStyle, code: &mut String) -> (b: bool)
    ensures
        final(code)@ == old(code)@ + spec_image(key@, title@, *style),
        b == true,
{
    code.append(IMAGE_0);
    code.append(key.as_str());
    code.append(IMAGE_1);
    let ghost base = old(code)@ + IMAGE_0@ + key@ + IMAGE_1@;
    match style.width {
        Some(w) => {
            code.append(IMAGE_W_0);
            let num = u64_to_dec(w as u64);
            code.append(num.as_str());
            code.append(FLOAT_SUFFIX);
            proof {
                lemma_concat_associative(base, IMAGE_W_0@, spec_dec(w as int));
                lemma_concat_associative(base, IMAGE_W_0@ + spec_dec(w as int), FLOAT_SUFFIX@);
            }
            match style.height {
                Some(h) => {
                    code.append(IMAGE_H_0);
                    let num2 = u64_to_dec(h as u64);
                    code.append(num2.as_str());
                    code.append(FLOAT_SUFFIX);
                    proof {
                        let p = IMAGE_W_0@ + spec_dec(w as int) + FLOAT_SUFFIX@;
                        let q = IMAGE_H_0@ + spec_dec(h as int) + FLOAT_SUFFIX@;
                        lemma_concat_associative(base + p, IMAGE_H_0@, spec_dec(h as int));
                        lemma_concat_associative(
                            base + p,
                            IMAGE_H_0@ + spec_dec(h as int),
                            FLOAT_SUFFIX@,
                        );
                        lemma_concat_associative(base, p, q);
                        assert(code@ == base + spec_image_size(*style));
                    }
                },
                None => {
                    code.append(IMAGE_H_DERIVED);
                    proof {
                        let p = IMAGE_W_0@ + spec_dec(w as int) + FLOAT_SUFFIX@;
                        lemma_concat_associative(base, p, IMAGE_H_DERIVED@);
                        assert(code@ == base + spec_image_size(*style));
                    }
                },
            }
        },
        None => {
            code.append(IMAGE_W_NATURAL);
            code.append(IMAGE_H_NATURAL);
            proof {
                lemma_concat_associative(base, IMAGE_W_NATURAL@, IMAGE_H_NATURAL@);
                assert(code@ == base + spec_image_size(*style));
            }
        },
    }
    let ghost b2 = base + spec_image_size(*style);
    match style.align_h {
        AlignHorizontal::Auto => {
            code.append(LAYOUT_LEFT);
            proof {
                assert(code@ == b2 + spec_image_layout(style.align_h));
            }
        },
        AlignHorizontal::Left => {
            code.append(LAYOUT_LEFT);
            proof {
                assert(code@ == b2 + spec_image_layout(style.align_h));
            }
        },
        AlignHorizontal::Right => {
            code.append(LAYOUT_RIGHT);
            proof {
                assert(code@ == b2 + spec_image_layout(style.align_h));
            }
        },
        AlignHorizontal::Center => {
            code.append(LAYOUT_CENTER);
            proof {
                assert(code@ == b2 + spec_image_layout(style.align_h));
            }
        },
    }
    let ghost b3 = b2 + spec_image_layout(style.align_h);
    code.append(IMAGE_2);
    code.append(IMAGE_3);
    code.append(title.as_str());
    code.append(IMAGE_4);
    code.append(IMAGE_5);
    proof {
        let sz = spec_image_size(*style);
        let ly = spec_image_layout(style.align_h);
        lemma_concat_associative(old(code)@, IMAGE_0@, key@);
        let u2 = IMAGE_0@ + key@ + IMAGE_1@;
        lemma_concat_associative(old(code)@, IMAGE_0@ + key@, IMAGE_1@);
        assert(base == old(code)@ + u2);
        lemma_concat_associative(old(code)@, u2, sz);
        assert(b2 == old(code)@ + (u2 + sz));
        lemma_concat_associative(old(code)@, u2 + sz, ly);
        assert(b3 == old(code)@ + (u2 + sz + ly));
        lemma_concat_associative(old(code)@, u2 + sz + ly, IMAGE_2@);
        lemma_concat_associative(old(code)@, u2 + sz + ly + IMAGE_2@, IMAGE_3@);
        lemma_concat_associative(old(code)@, u2 + sz + ly + IMAGE_2@ + IMAGE_3@, title@);
        lemma_concat_associative(
            old(code)@,
            u2 + sz + ly + IMAGE_2@ + IMAGE_3@ + title@,
            IMAGE_4@,
        );
        lemma_concat_associative(
            old(code)@,
            u2 + sz + ly + IMAGE_2@ + IMAGE_3@ + title@ + IMAGE_4@,
            IMAGE_5@,
        );
        assert(code@ == old(code)@ + spec_image(key@, title@, *style));
    }
    true
}

pub const MARKER_OPEN: &'static str = "[[[";

pub const MARKER_CLOSE: &'static str = "]]]";

/// The delimiter-marked token for a template placeholder name.
pub open spec fn spec_marker(from: Seq<char>) -> Seq<char> {
    MARKER_OPEN@ + from + MARKER_CLOSE@
}

/// Substitute a template placeholder: every occurrence of the token
/// `[[[from]]]` in `src` is replaced verbatim by `to`.
pub fn replace_str(src: &String, from: &str, to: &str) -> (r: String)
    ensures
        r@ == spec_replace(src@, spec_marker(from@), to@),
{
    let mut marker = String::from_str(MARKER_OPEN);
    marker.append(from);
    marker.append(MARKER_CLOSE);
    proof {
        reveal_strlit("[[[");
        assert(marker@ =~= spec_marker(from@));
    }
    replace_all(src.as_str(), marker.as_str(), to)
}

} // verus!
