//! Accent colour derivation for a UI theme: an 8-bit sRGB / fixed-point
//! cylindrical colour model, a hexadecimal codec, a contrast ratio, a
//! perceptual palette matcher and a contrast-constrained lightness search.

pub mod color;
pub mod contrast;
pub mod derive;
pub mod matcher;
pub mod theme;
