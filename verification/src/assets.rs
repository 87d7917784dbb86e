//! Opaque handles for renderer-side assets. Loading meshes and textures is
//! the asset collaborator's job; the world only stores and compares these
//! handles when deciding what each entity should display.

use vstd::prelude::*;

verus! {

/// Handle to a loaded mesh.
#[derive(Clone, Copy, PartialEq, Eq, Structural, Hash, Debug)]
pub struct MeshRef(pub usize);

/// Handle to a loaded texture.
#[derive(Clone, Copy, PartialEq, Eq, Structural, Hash, Debug)]
pub struct TextureRef(pub usize);

/// A drawable model: one mesh paired with one texture.
#[derive(Clone, Copy, PartialEq, Eq, Structural, Hash, Debug)]
pub struct Model {
    pub mesh: MeshRef,
    pub texture: TextureRef,
}

/// Size and title the windowing collaborator opens the display with.
pub struct WindowSettings {
    pub w: usize,
    pub h: usize,
    pub title: String,
}

impl Default for WindowSettings {
    /// A 1024 by 768 window titled "Engine Window".
    fn default() -> (r: Self)
        ensures
            r.w == 1024,
            r.h == 768,
            r.title@ == "Engine Window"@,
    {
        broadcast use vstd::string::group_string_axioms;

        Self { w: 1024, h: 768, title: "Engine Window".to_string() }
    }
}

} // verus!
