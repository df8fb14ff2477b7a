//! Graphics-side logic: pixel rectangles, RGBA images, image atlases, glyph
//! sheets and the decisions of the graphics context.

pub mod atlas_node;
pub mod atlas_pixels;
pub mod atlas_size;
pub mod batch_status;
pub mod camera_manager;
pub mod canvas;
pub mod config;
pub mod consts;
pub mod context;
pub mod font2;
pub mod glyph_sheet2;
pub mod image;
pub mod image_atlas;
pub mod image_file;
pub mod old_raw_window_handle_wrapper;
pub mod pixel_bounds;
pub mod relative_anchor;
pub mod shape;
pub mod shape_batch;
pub mod shapes;

pub use self::image::Image;
pub use self::image_atlas::{ImageAtlas, ImageAtlasBuilder};
pub use self::pixel_bounds::PixelBounds;
