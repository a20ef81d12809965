//! Options for importing a texture.
use vstd::prelude::*;

verus! {

/// How a texture is imported: an optional debug label, whether it is a
/// lookup table, and whether its data is linear rather than sRGB-encoded.
#[derive(Clone, Copy, Debug)]
pub struct TextureImportOptions<'a> {
    pub label: Option<&'a str>,
    pub is_lut: bool,
    pub is_linear: bool,
}

impl<'a> Default for TextureImportOptions<'a> {
    /// No label, not a lookup table, sRGB-encoded.
    fn default() -> (r: Self)
        ensures
            r.label is None,
            !r.is_lut,
            !r.is_linear,
    {
        TextureImportOptions { label: None, is_lut: false, is_linear: false }
    }
}

} // verus!
