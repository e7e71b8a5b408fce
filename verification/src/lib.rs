//! A verified scrollable text-viewer core for terminal applications.
//!
//! The central type is [`scroll::ScrollLinesState`]: it owns a sequence of
//! styled display lines together with their plain-text counterparts, keeps
//! a vertical and a horizontal scroll offset, and interprets a one-shot
//! pending scroll command once per render pass.  [`scroll::ScrollLines`]
//! resolves that command and lays out two content blocks — a line-number
//! gutter and the text body — for an embedding application to paint.
//! [`help`] decides key presses on the help page and assembles its content
//! lines; [`path`] splits storage object keys.

pub mod help;
pub mod laws;
pub mod path;
pub mod scroll;
pub mod text;
pub mod util;
pub mod wrap;
