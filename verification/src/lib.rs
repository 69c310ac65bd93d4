//! A compact, self-describing binary container for sequences of
//! variable-length values, readable directly out of a raw byte buffer.
//!
//! The buffer layout is: a little-endian `u32` element count, an index
//! table of one little-endian `u32` offset per element, and a data
//! segment holding every element's encoded bytes back to back. An empty
//! buffer encodes zero elements. A [`components::VarZeroVecComponents`]
//! decomposes such a buffer into its regions and offers random access,
//! ordered traversal and binary search over the encoded elements.

pub mod bidi;
pub mod codepointtrie;
pub mod components;
pub mod tinystr;
pub mod types;
pub mod ule;
