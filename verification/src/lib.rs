//! LSB steganography: embed and extract byte payloads in the low bits of an
//! RGBA pixel buffer, wrapped in a length-prefixed frame.

pub mod api;
pub mod auth;
pub mod bits;
pub mod error;
pub mod frame;
pub mod lsb;
pub mod models;

pub use error::StegError;
pub use lsb::{capacity, decode, decode_string, encode, RgbaImage};
