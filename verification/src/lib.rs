//! Renders a text message as an animated multi-stop colour gradient.
//!
//! The crate holds the gradient arithmetic, the render state and its
//! mutations, the framing of the control channel and the layout of a frame,
//! all on plain values; drawing, sockets and trigonometry belong to the caller.

pub mod angle;
pub mod arguments;
pub mod arithmetic;
pub mod color;
pub mod display;
pub mod input;
pub mod network;
pub mod parser;
pub mod render_loop;
pub mod state;
pub mod terminal;
pub mod text;
pub mod typewriter;
