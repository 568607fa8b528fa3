pub mod coordinates;
pub mod helpers;
pub mod input;
pub mod tile;
