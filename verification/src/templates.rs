//! Fixed template fragments of the standalone compiler. The generated
//! program is assembled by concatenating these with the generated resource
//! and per-frame fragments; `[[[name]]]`-style tokens are replaced verbatim
//! by literal values.

use vstd::prelude::*;

verus! {

/// The build manifest of the generated project.
pub const CARGO_TOML_CONTENT: &'static str = "[package]
name = \"opmark\"
version = \"0.1.0\"
edition = \"2018\"

[dependencies]
eframe = \"0.16.0\"
image = \"0.23\"
";

/// Imports, layout constants and helpers of the generated program.
pub const SRC_IMPORT_CONTENT: &'static str = "use eframe::{egui, epi};
use std::collections::HashMap;
const NORMAL_SPACING_X: f32 = 2.0;
const NORMAL_SPACING_Y: f32 = 2.0;
const BIG_SPACING_X: f32 = 8.0;
const INDENT_GRID_SIZE: f32 = 16.0;
const NEW_LINE_HEIGHT: f32 = 16.0;
struct Texture { id: egui::TextureId, size: egui::Vec2 }
fn indent(level: f32, ui: &mut egui::Ui) -> egui::Rect {
    let (rect, _) = ui.allocate_exact_size(
        egui::vec2(INDENT_GRID_SIZE * level, INDENT_GRID_SIZE),
        egui::Sense::hover(),
    );
    rect
}
fn load_texture(image_data: &[u8], frame: &epi::Frame) -> Option<Texture> {
    let image = image::load_from_memory(image_data).ok()?;
    let size = [image.width() as usize, image.height() as usize];
    let pixels = image.to_rgba8().into_vec();
    let epi_image = epi::Image::from_rgba_unmultiplied(size, &pixels);
    let id = frame.alloc_texture(epi_image);
    Some(Texture { id, size: egui::Vec2::new(size[0] as f32, size[1] as f32) })
}
";

/// App shell, first part: state and the start of the texture set-up routine;
/// `[[[name]]]` receives the literal program name.
pub const SRC_APP_1_CONTENT: &'static str = "struct App {
    scene_idx: usize,
    textures: HashMap<String, Texture>,
    loaded: bool,
}
impl App {
    fn new() -> Self {
        App { scene_idx: 0, textures: HashMap::new(), loaded: false }
    }
    fn name_str(&self) -> &'static str { [[[name]]] }
    fn setup_textures(&mut self, frame: &epi::Frame) {
";

/// App shell, second part: closes the set-up routine and opens the per-frame
/// drawing closure that the generated page blocks fill.
pub const SRC_APP_2_CONTENT: &'static str = "    }
}
impl epi::App for App {
    fn name(&self) -> &str { self.name_str() }
    fn update(&mut self, ctx: &egui::CtxRef, frame: &epi::Frame) {
        if !self.loaded { self.setup_textures(frame); self.loaded = true; }
        let panel = egui::CentralPanel::default().show(ctx, |ui| {
            let initial_size = egui::vec2(ui.available_width(), ui.spacing().interact_size.y);
            let layout = egui::Layout::left_to_right().with_main_wrap(true);
            ui.spacing_mut().item_spacing.x = NORMAL_SPACING_X;
            ui.spacing_mut().item_spacing.y = NORMAL_SPACING_Y;
            ui.allocate_ui_with_layout(initial_size, layout, |outer_ui| {
";

/// App shell, third part: input handling over the linear scene counter;
/// `[[[max_scene_idx]]]` receives the literal total scene count.
pub const SRC_APP_3_CONTENT: &'static str = "            });
        });
        let max_scene_idx: usize = [[[max_scene_idx]]];
        let resp = panel.response.interact(egui::Sense::click());
        if resp.clicked() && self.scene_idx + 1 < max_scene_idx {
            self.scene_idx += 1;
        }
        let is = ctx.input();
        if is.key_released(egui::Key::Escape) {
            frame.quit();
        } else if is.key_released(egui::Key::ArrowRight) || is.key_released(egui::Key::ArrowDown) {
            if self.scene_idx + 1 < max_scene_idx {
                self.scene_idx += 1;
            }
        } else if is.key_released(egui::Key::ArrowLeft) || is.key_released(egui::Key::ArrowUp) {
            if self.scene_idx > 0 {
                self.scene_idx -= 1;
            }
        }
    }
}
";

/// Entry point of the generated program.
pub const SRC_MAIN_CONTENT: &'static str = "fn main() {
    let app = App::new();
    let native_options = eframe::NativeOptions::default();
    eframe::run_native(Box::new(app), native_options);
}
";

} // verus!
