pub mod grid_traversal;
