use opmark_egui::builder::{release_binary_path, Builder};
use opmark_egui::emit::{code_block, line_break, new_line, replace_str, transition};
use opmark_egui::model::{
    Document, Heading, ImageStyle, Listing, Mark, Page, TextStyle, Transition,
    AlignHorizontal, IndentLevel,
};

fn text_mark(s: &str) -> Mark {
    Mark::Text(String::from(s), TextStyle::plain())
}

fn page_with_orders(orders: &[usize]) -> Page {
    Page {
        transitions: orders
            .iter()
            .map(|&o| Transition { order: o, marks: vec![text_mark("x")] })
            .collect(),
    }
}

#[test]
fn replace_str_substitutes_marked_token() {
    let src = String::from("hello [[[name]]]!");
    assert_eq!(replace_str(&src, "name", "world"), "hello world!");
}

#[test]
fn replace_str_replaces_every_occurrence() {
    let src = String::from("[[[x]]]+[[[x]]]");
    assert_eq!(replace_str(&src, "x", "1"), "1+1");
}

#[test]
fn replace_str_leaves_other_tokens() {
    let src = String::from("[[[a]]] [[[b]]]");
    assert_eq!(replace_str(&src, "a", "1"), "1 [[[b]]]");
}

#[test]
fn transition_emits_guard_for_positive_border() {
    let mut code = String::new();
    transition(42, &mut code);
    assert_eq!(code, "if self.scene_idx < 42 {ui.set_visible(false);}");
}

#[test]
fn transition_emits_nothing_for_border_zero() {
    let mut code = String::new();
    transition(0, &mut code);
    assert_eq!(code, "");
}

#[test]
fn code_block_emits_panel_and_breaks_line() {
    let mut code = String::new();
    let b = code_block(&String::from("let x = 1;"), &None, &mut code);
    assert!(b);
    assert!(code.starts_with(
        "let where_to_put_background = ui.painter().add(egui::Shape::Noop);"
    ));
    assert!(code.contains("let mut rect = ui.monospace(\"let x = 1;\").rect;"));
    assert!(code.contains("rect.max.x = ui.max_rect().max.x;"));
}

#[test]
fn code_block_keeps_embedded_quotes_unescaped() {
    // The known inlining gap: quote characters in literal text pass through
    // verbatim into the generated source.
    let mut code = String::new();
    code_block(&String::from("say \"hi\""), &None, &mut code);
    assert!(code.contains("ui.monospace(\"say \"hi\"\")"));
}

#[test]
fn new_line_and_line_break_statements() {
    let mut code = String::new();
    assert!(new_line(&mut code));
    assert_eq!(
        code,
        "ui.allocate_exact_size(egui::vec2(0.0, NEW_LINE_HEIGHT), egui::Sense::hover());"
    );
    let mut code = String::new();
    line_break(&mut code);
    assert_eq!(code, "outer_ui.end_row();");
}

#[test]
fn scene_intervals_partition_for_known_max_steps() {
    // Pages with max_step values [2, 0, 1] give the intervals [0,3), [3,4),
    // [4,6) and a total of 6 scenes.
    let doc = Document {
        pages: vec![page_with_orders(&[2]), page_with_orders(&[]), page_with_orders(&[1])],
    };
    let builder = Builder::new(doc);
    let update = builder.generate_code_update();
    assert!(update.contains("if self.scene_idx >= 0 && self.scene_idx < 3 {"));
    assert!(update.contains("if self.scene_idx >= 3 && self.scene_idx < 4 {"));
    assert!(update.contains("if self.scene_idx >= 4 && self.scene_idx < 6 {"));
    assert!(update.contains("let max_scene_idx: usize = 6;"));
    assert!(!update.contains("[[[max_scene_idx]]]"));
}

#[test]
fn mark_threshold_is_page_start_plus_order() {
    // Second page starts at scene 3; its transition of order 2 guards its
    // marks with threshold 5.
    let doc = Document { pages: vec![page_with_orders(&[2]), page_with_orders(&[2])] };
    let builder = Builder::new(doc);
    let update = builder.generate_code_update();
    assert!(update.contains("if self.scene_idx < 2 {ui.set_visible(false);}"));
    assert!(update.contains("if self.scene_idx < 5 {ui.set_visible(false);}"));
}

#[test]
fn setup_embeds_each_image_key_once_in_first_seen_order() {
    let style = ImageStyle { align_h: AlignHorizontal::Auto, width: None, height: None };
    let doc = Document {
        pages: vec![Page {
            transitions: vec![Transition {
                order: 0,
                marks: vec![
                    Mark::Image(String::from("b.png"), String::from("B"), style),
                    Mark::Image(String::from("a.png"), String::from("A"), style),
                    Mark::Image(String::from("b.png"), String::from("B again"), style),
                ],
            }],
        }],
    };
    let builder = Builder::new(doc);
    let setup = builder.generate_code_setup();
    let first_b = setup.find("include_bytes!(\"../../b.png\")").unwrap();
    let first_a = setup.find("include_bytes!(\"../../a.png\")").unwrap();
    assert!(first_b < first_a);
    assert_eq!(setup.matches("include_bytes!(\"../../b.png\")").count(), 1);
    assert!(setup.contains("self.textures.insert(\"a.png\".to_string(), texture);"));
}

#[test]
fn generated_program_assembles_all_fragments() {
    let mut heading_style = TextStyle::plain();
    heading_style.heading = Heading::H2;
    let doc = Document {
        pages: vec![Page {
            transitions: vec![Transition {
                order: 0,
                marks: vec![Mark::Text(String::from("Hello"), heading_style)],
            }],
        }],
    };
    let builder = Builder::new(doc);
    let code = builder.generate_code();
    assert!(code.starts_with("use eframe::{egui, epi};"));
    assert!(code.contains("fn name_str(&self) -> &'static str { \"opmark\" }"));
    assert!(!code.contains("[[[name]]]"));
    assert!(code.contains("let rich_text = egui::RichText::new(\"Hello\");"));
    assert!(code.contains("let rich_text = rich_text.heading();"));
    assert!(code.contains("outer_ui.end_row();"));
    assert!(code.ends_with("}\n"));
}

#[test]
fn ordered_and_unordered_listing_code() {
    let mut ordered = TextStyle::plain();
    ordered.listing = Listing::Ordered(3, IndentLevel::I1);
    let mut unordered = TextStyle::plain();
    unordered.listing = Listing::Unordered(IndentLevel::I2);
    let doc = Document {
        pages: vec![Page {
            transitions: vec![Transition {
                order: 0,
                marks: vec![
                    Mark::Text(String::from("third"), ordered),
                    Mark::Text(String::from("deep"), unordered),
                ],
            }],
        }],
    };
    let builder = Builder::new(doc);
    let update = builder.generate_code_update();
    assert!(update.contains("indent(1.0, ui);"));
    assert!(update.contains("let rich_text = egui::RichText::new(\"3.\");"));
    assert!(update.contains("let rect = indent(2.0, ui);"));
    assert!(update.contains("ui.painter().rect_filled(egui::Rect::from_center_size"));
}

#[test]
fn workspace_plan_names_root_from_stamp() {
    let doc = Document { pages: vec![page_with_orders(&[0])] };
    let builder = Builder::new(doc);
    let plan = builder.code(123456789);
    assert_eq!(plan.root, ".opmark-out-123456789");
    assert!(plan.cargo_toml.contains("name = \"opmark\""));
    assert!(plan.main_rs.contains("fn main()"));
}

#[test]
fn release_binary_path_is_under_scratch_root() {
    let root = String::from(".opmark-out-7");
    assert_eq!(release_binary_path(&root), ".opmark-out-7/target/release/opmark");
}
