pub mod chained_tile;
pub mod egui_check;
pub mod tile_rotation;
