//! A small retained-mode rendering engine: entities with components, stages
//! that build device resources from them, and a render stage that draws what
//! was built.
pub mod application;
pub mod assets;
pub mod components;
pub mod gpu;
pub mod material_manager;
pub mod shader_manager;
pub mod store;
pub mod systems;
