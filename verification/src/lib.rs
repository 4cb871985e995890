//! A scrollable grid of pointy-top hexagonal map cells.
//!
//! Pixel positions are carried as exact quarter-pixel integers, so every
//! geometric quantity of the layout (cell centers, the six corner points,
//! the pointer-to-cell resolution and the camera pan clamp) is computed
//! and specified exactly, with no rounding.

mod camera;
mod grid;
mod hex;
mod input;
mod resolve;
mod tile;

pub use camera::lemma_pan_drives_offset_to_zero;
pub use camera::lemma_pan_never_positive;
pub use camera::lemma_pan_positive_delta_keeps_zero;
pub use camera::map_extent_x2;
pub use camera::map_extent_y8;
pub use camera::pan_iter;
pub use camera::pan_step;
pub use camera::pan_step_x;
pub use camera::pan_step_y;
pub use camera::CameraController;
pub use grid::Grid;
pub use grid::GridError;

pub use hex::center_x4;
pub use hex::center_y4;
pub use hex::corner_dx4;
pub use hex::corner_dy4;
pub use hex::lemma_center_is_mean_of_corners;
pub use hex::PixelPoint;
pub use input::apply_message;
pub use input::ButtonTracker;
pub use input::InputController;
pub use input::Message;
pub use resolve::cand_dist;
pub use resolve::ceil_est;
pub use resolve::clamped_num;
pub use resolve::dist_le;
pub use resolve::dist_num;
pub use resolve::est_x_num;
pub use resolve::est_y_num;
pub use resolve::floor_est;
pub use resolve::lemma_est_bounds;
pub use resolve::lemma_resolve_center_roundtrip;
pub use resolve::lemma_resolve_far_negative_corner;
pub use resolve::lemma_resolve_spec_total;
pub use resolve::opt_dist;
pub use resolve::resolve_spec;
pub use resolve::COORD_LIMIT_X4;
pub use tile::index_of_tile_type;
pub use tile::lemma_tile_type_table_bijective;
pub use tile::tile_type_from_index;
pub use tile::tile_type_of_index;
pub use tile::Tile;
pub use tile::TileType;
