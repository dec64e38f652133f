//! A small full-screen editor for short texts: the text buffer with its
//! cursor, the framed layout of the text, the placement of the frame on the
//! screen, and the key handling that drives them.

pub mod controller;
pub mod layout;
pub mod poem;
pub mod text;
