//! Storing an arbitrary byte payload in the pixels of a lossless RGB image.
use vstd::prelude::*;

pub mod error;
pub mod geometry;
pub mod packing;
pub mod png;

verus! {

} // verus!
