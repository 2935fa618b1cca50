//! A small proxy utility library: an icon-container (ICO) decoder that turns
//! a raw icon file into a canonical RGBA pixel buffer, plus the pure
//! request/response translation rules of the chat proxy endpoint.

pub mod ico;
pub mod proxy;
