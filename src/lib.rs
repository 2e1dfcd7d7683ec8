//! Glyph metrics and glyph raster caches for one font face, and a family of
//! fallback faces queried as one logical font.
//!
//! Advance widths are integers in sixths of a font unit, so that the widths
//! derived for tab and thin space are exact. Everything that needs floating
//! point (scaling to points, rounding to the UI grid, painting coverage) is done
//! by the caller around these caches.

pub mod chars;
pub mod cache;
pub mod glyph;
pub mod face;
pub mod family;
pub mod index;
pub mod laws;
