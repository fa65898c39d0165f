//! Uniform-buffer packing, pipeline specialization and shader hot-reload
//! bookkeeping for custom 2D materials.

pub mod custom_material;
pub mod layout;
pub mod material;
pub mod packer;
pub mod parameter_set;
pub mod params;
pub mod pipeline;
pub mod render;
pub mod shader;
pub mod tweak;
