//! An in-memory store of fixed-length integer vectors.
//!
//! A [`store::VectorStore`] owns an ordered collection of
//! [`store::VectorRecord`] values and supports insert, update, delete, point
//! lookup by identifier, and a nearest-neighbour query by Euclidean distance.
//! Distances are compared by their exact squared value: the square root is
//! monotone, so the nearest record and every tie-break are the same as they
//! would be under the rooted distance, and the comparison stays in integer
//! arithmetic.

pub mod distance;
pub mod error;
pub mod laws;
pub mod store;
