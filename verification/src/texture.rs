//! The model of a loaded texture.
//!
//! Decoding image data and uploading it happen in the rendering backend;
//! the library only tracks the resulting texture identifier.

use vstd::prelude::*;

verus! {

/// An uploaded texture, known by its backend identifier.
pub struct Texture {
    id: u32,
}

impl Texture {
    /// The backend identifier of the texture.
    pub closed spec fn id_spec(&self) -> u32 {
        self.id
    }

    /// Wraps a backend texture identifier.
    pub fn from_raw(id: u32) -> (r: Texture)
        ensures
            r.id_spec() == id,
    {
        Texture { id }
    }

    /// The backend identifier of the texture.
    pub fn id(&self) -> (r: u32)
        ensures
            r == self.id_spec(),
    {
        self.id
    }
}

} // verus!
