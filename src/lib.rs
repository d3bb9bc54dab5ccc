//! CPU-side construction and caching of GPU geometry buffers: interleaved
//! vertex data, triangle indices and the derived line indices for wireframes.

pub mod gl_geometry;
pub mod index;
pub mod layout;

pub use gl_geometry::{GLGeometryData, GeometryError};
pub use index::{cast_to_u32_array, cast_to_u32_line_array, to_u32_line_array, IndexValues};
pub use layout::{interleave, Attribute, BufferData};
