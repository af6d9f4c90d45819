//! A Japanese input-method engine core: romaji composition, selection-based
//! partial conversion, direct (F6-F10) conversion and the alignment of a
//! converted surface against its hiragana reading.

pub mod kana;
pub mod text;
pub mod align;
pub mod romaji;
pub mod buffer;
pub mod candidates;
pub mod sources;
pub mod keys;
pub mod engine;
