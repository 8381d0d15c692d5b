//! Text fitting and line layout for fixed-size title cards.
//!
//! All quantities are exact integers: glyph advances are font design units,
//! a [`scale::Scale`] counts sixty-fourths of a pixel, and a measured width
//! is the product of the two.

pub mod analysis;
pub mod fit;
pub mod layout;
pub mod metrics;
pub mod panel;
pub mod place;
pub mod scale;
pub mod segment;
pub mod token;
pub mod wrap;
