//! In-memory plain-text editing core for a single note buffer.
//!
//! The buffer owns UTF-8 encoded text addressed by byte offset; around it
//! stand grapheme-aware cursor movement, a selection state machine, line
//! navigation with column memory, a bridge between native byte offsets and
//! the UTF-16 code units used by input-method protocols, and integer-space
//! hit testing from mouse positions to text offsets.

pub mod editor;
pub mod encoding;
pub mod graphemes;
pub mod layout;
pub mod lines;
pub mod notes;
pub mod title;
pub mod utf8;
