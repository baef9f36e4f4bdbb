pub mod ndarray;
pub mod ops;
pub mod shape;
pub mod utils;
