//! A text-mode display driver: an 80 x 25 character grid of volatile display
//! cells, a cursor that wraps and scrolls, and an inline escape mini-language
//! for newline, tab and foreground-color control.

pub mod cell;
pub mod model;
pub mod palette;
pub mod writer;
pub mod laws;
