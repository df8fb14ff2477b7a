# Anchor

Anchor is a small framework for 2D games. This crate holds the engine's logic
that does not depend on a GPU or a window system, written in Verus and proved
against its contracts:

- `graphics::image`, `graphics::image_atlas`, `graphics::atlas_node`,
  `graphics::atlas_pixels`, `graphics::atlas_size`: RGBA images and their
  packing into one atlas. The proofs show that every image's rectangle has
  its size and lies in the atlas, that the atlas is at most as wide (tall) as
  all widths (heights) together, that the longest image is packed first, and
  that each image can be read back from the atlas wherever no image copied
  after it covers it. `graphics::image_file` picks an image file's format
  from its extension and decodes its bytes with the `image` crate.
- `graphics::glyph_sheet2`: a one-byte-per-pixel sheet that glyphs are packed
  into row by row; glyphs never overlap and read back as inserted.
- `graphics::canvas`, `graphics::shape`, `graphics::shape_batch`,
  `graphics::shapes`, `graphics::camera_manager`, `graphics::context`: what a
  frame records and the decisions about GPU buffers, pipelines and
  configuration, as plain values that the rendering code carries out.
- `fps_limiter`, `game_loop`, `game`, `game_core`: frame pacing with fixed
  updates, and the order in which the game loop runs the game's callbacks.

`app/` holds what is left outside the proofs: floating-point geometry and
colors, reading image files and loading fonts, shape tessellation, serde copies of library
types, and the code that runs a game's callbacks around the library's
decisions.
