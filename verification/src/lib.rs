//! Voxel-model ingestion and ray marching.
//!
//! Sparse lists of colored unit cubes are turned into a palette plus a
//! dense, tightly bounding-boxed grid, and rays are walked cell by cell
//! through that grid to find the first occupied voxel.

pub mod palette;
pub mod bounds;
pub mod grid;
pub mod march;
pub mod model;

pub use palette::Material;
pub use palette::MaterialId;
pub use palette::Palette;
pub use model::Model;
