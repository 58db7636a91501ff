//! Host-side logic of a real-time black-hole renderer: the bloom mip chain,
//! the off-screen targets tied to the viewport size and how a resize
//! rebuilds them, the fixed sequence of passes of a frame, texture units and
//! uniform locations of a pass, the sampling grid of the 3D noise volume,
//! the rewriting of shader text for GLSL ES and the decoding of texture
//! assets.
pub mod bloom;
pub mod targets;
pub mod frame;
pub mod render_pass;
pub mod noise_gen;
pub mod gui;
pub mod shader_text;
pub mod texture;
