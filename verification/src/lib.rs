pub mod computational_graph;
pub mod ndarray;
