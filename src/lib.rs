//! A backend-independent algebra of fixed-dimension vectors, points and
//! matrices over `i64` scalars.
//!
//! The interfaces come in three families: `adjunct` (component-wise
//! operations), `space` (vector, affine and Euclidean structure, bases and
//! matrices) and `ops` (products and interpolation). `vector`, `point` and
//! `matrix` implement them for aggregates whose dimensions are const
//! generics, so mismatched dimensions are rejected at compile time.
pub mod adjunct;
pub mod matrix;
pub mod ops;
pub mod point;
pub mod space;
pub mod vector;
