//! Gadgets for embedding bitwise computation into an arithmetic circuit by
//! the spread technique: a 16-bit dense value is re-encoded with a zero
//! guard bit between every two data bits, so that field additions stand in
//! for boolean operations, and a composite circuit builder that lets the
//! resulting constraints coexist with a general-purpose arithmetic builder
//! over one shared copy-constraint registry.

pub mod backend;
pub mod bits;
pub mod builder;
pub mod gates;
pub mod spread;
