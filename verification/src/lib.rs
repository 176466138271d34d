//! A growable container for values of a closed set of variants. It keeps the
//! tag of each element in the fewest bits that the number of variants allows
//! and the data of each element in a record of its own, so that no element
//! pays for the padding of an ordinary enum.

pub mod bits;
pub mod convert;
pub mod equality;
pub mod iter;
pub mod laws;
pub mod peapod;
pub mod phenotype;
pub mod render;
pub mod tag_stream;
pub mod width;

pub use crate::iter::IntoIter;
pub use crate::peapod::Peapod;
pub use crate::phenotype::{Phenotype, PhenotypeDebug};
pub use crate::width::{log2, num_bits, peapod_size, tag_bits, tag_bytes};
