//! Loads glTF scene descriptions into mesh collections and keeps GPU-side
//! vertex/index buffer resources synchronized with the loaded assets as they
//! are created, modified and removed.

pub mod document;
pub mod gltf_scene;
pub mod loader;
pub mod mesh;
pub mod render_resources;
