//! Frame-scoped draw-pass management for a handheld console's fixed-function
//! GPU, and the controls of the console as events.
//!
//! The library decides what the GPU is asked to do and in which order; it
//! never touches the hardware itself. Every step of a frame is checked
//! against the state of the device, of the open frame and of the resources
//! involved, and what the driver has to carry out is written down as a list
//! of [`command::GpuCommand`]s.
//!
//! From the leaves to the root: [`frame`] opens and ends frames,
//! [`gpu_buffer`] accounts for linear memory, [`pipeline`] describes vertex
//! layouts, [`pass`] is the render pass and the registry of vertex buffers,
//! [`draw`] runs render commands in their order, and [`plugin`] draws a
//! whole frame for the cameras of a scene.

pub mod error;
pub mod math;
pub mod command;
pub mod frame;
pub mod gpu_buffer;
pub mod pipeline;
pub mod shader;
pub mod texenv;
pub mod texture;
pub mod material;
pub mod lighting;
pub mod pass;
pub mod assets;
pub mod camera;
pub mod world;
pub mod draw;
pub mod mesh;
pub mod sprite;
pub mod plugin;
pub mod input;
pub mod romfs_assets;
