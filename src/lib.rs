//! Geometry and markup of a "V over T" logo whose proportions follow one
//! stroke width. All coordinates are exact: a width is a decimal with three
//! fractional digits, and every coordinate derived from it is a fixed-point
//! number with ten fractional digits.

pub mod geometry;
pub mod text;
pub mod document;
