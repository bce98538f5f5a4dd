//! Core of an OpMark slideshow tool: the in-memory document model, the
//! pagination and reveal-step navigation state machine, the dispatch mapping
//! from content marks to primitive drawing operations, and the standalone
//! compiler that flattens the same model into generated program text.
//!
//! Everything that touches a window, the filesystem or a subprocess lives
//! outside this crate; this crate computes values and proves what they are.

pub mod builder;
pub mod dispatch;
pub mod emit;
pub mod fsmodel;
pub mod meta;
pub mod model;
pub mod nav;
pub mod render;
pub mod strutil;
pub mod templates;
