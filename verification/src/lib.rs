//! Verified core of the smq engine's asset pipeline and editor: WGSL struct
//! analysis, uniform-buffer layout and the generated asset module, texture
//! settings, the mesh and hierarchy file formats, bounding volume hierarchy
//! layout, keyboard state, and the editor's inspector and asset browser.
use vstd::prelude::*;

pub mod text;
pub mod wgsl;
pub mod layout;
pub mod analysis;
pub mod shader;
pub mod config;
pub mod bake;
pub mod formats;
pub mod smf;
pub mod bvh;
pub mod input;
pub mod editor;
pub mod logger;
pub mod assets;
pub mod plan;

verus! {

} // verus!
