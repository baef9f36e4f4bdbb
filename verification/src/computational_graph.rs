pub mod grad;
pub mod node;
pub mod ops;
