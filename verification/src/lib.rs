//! Core of a Bluetooth smart-cube driver: the bit-level frame codec, the
//! per-device cipher, the typed message codec, the cube move/state algebra,
//! and the canonicalizing move buffer that turns reported moves into keys.
pub mod algorithm;
pub mod bitstream;
pub mod cipher;
pub mod codec;
pub mod cube;
pub mod cuboard;
