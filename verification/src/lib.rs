//! A verified core for a DOOM-style software renderer: WAD asset decoding,
//! map loading, BSP queries, light and map-object thinkers, and the integer
//! parts of the rendering pipeline (occlusion and visplane bookkeeping).
pub mod bitmap;
pub mod bytes;
pub mod errors;
pub mod flats;
pub mod game_state;
pub mod geometry;
pub mod bitmap_render;
pub mod bsp;
pub mod clock;
pub mod linedefs;
pub mod lights;
pub mod map;
pub mod map_objects;
pub mod nodes;
pub mod occlusion;
pub mod palette;
pub mod pixels;
pub mod pictures;
pub mod rng;
pub mod sectors;
pub mod segs;
pub mod sidedefs;
pub mod sky;
pub mod sprites;
pub mod stripes;
pub mod subsectors;
pub mod textures;
pub mod things;
pub mod thinkers;
pub mod vertexes;
pub mod visplanes;
pub mod wad;
