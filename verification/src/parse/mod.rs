//! Decoders for the on-disk structures of an image.

pub mod both_endian;
pub mod directory_entry;
