//! Resource bookkeeping and frame scheduling for a small real-time renderer: generation-checked
//! arenas of meshes, pipelines and instance lists, the dependencies between them, growable GPU
//! buffer sizing, immediate-mode line batches, and a fixed-timestep game loop.

pub mod handle;
pub mod resizable_buffer;
pub mod error;
pub mod instance;
pub mod instance_list;
pub mod mesh;
pub mod pipeline;
pub mod resources;
pub mod timing_stats;
pub mod game_loop;
pub mod line_renderer;
pub mod mesh_builder;
