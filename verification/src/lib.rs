//! A small dense-matrix algebra library: construction, element-wise
//! addition, matrix multiplication, decomposition into fixed-size square
//! tiles, and deterministic text rendering (flat and tiled).
//!
//! Every operation is specified against a mathematical model: a matrix is
//! viewed as a `Seq<Seq<T>>` of its elements in row-major order, and the
//! rendered text of a matrix is pinned down, byte for byte, by spec
//! functions over that view.

pub mod matrix;
pub mod num;
pub mod render;
pub mod text;
pub mod tiling;

pub use matrix::Matrix;
pub use matrix::MatrixError;
pub use num::Number;
pub use tiling::TiledMatrix;
