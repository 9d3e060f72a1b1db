//! Fixed-size vectors and matrices whose elements live inline, with their
//! dimensions carried in the type as const generic parameters.
pub mod arrays;
pub mod iters;
pub mod laws;
pub mod matrix;
pub mod seqs;
pub mod sums;
pub mod vector;

pub use iters::{ColsClonedIter, ColsIter, RowsClonedIter, RowsIter};
pub use matrix::Matrix;
pub use vector::{Vector, VectorChunks};
