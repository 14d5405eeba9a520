//! A monochrome pixel editor's core: the bit-packed pixel codec and file
//! format, the viewport that maps a canvas onto a terminal area, prompt
//! validation and the key-event state machine.

pub mod codec;
pub mod canvas;
pub mod prompt;
pub mod event;
