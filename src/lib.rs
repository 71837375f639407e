//! A small retained-mode renderer for coloured character-cell graphics on an
//! ANSI terminal.
//!
//! Drawing commands are queued on a [`Renderer`] and replayed in order by
//! [`Renderer::update`], which turns each of them into terminal operations
//! ([`TermOp`]). [`ansi`] spells every operation as its escape sequence; the
//! caller writes that text to the terminal.
pub mod ansi;
pub mod colour;
pub mod renderer;

pub use colour::Colour;
pub use renderer::{RenderCommand, Renderer, TermOp};
