//! Textures, which the host loads and the library refers to.
use vstd::prelude::*;
use vstd::string::*;

verus! {

/// Refers to a texture that the host has loaded.
#[derive(Clone, Copy, PartialEq, Eq, Structural, Debug)]
pub struct TextureHandle {
    pub index: usize,
}

/// The file that holds the texture called `name`.
pub open spec fn spec_texture_path(name: Seq<char>) -> Seq<char> {
    "assets/textures/"@ + name + ".png"@
}

/// The file that holds the texture called `name`.
pub fn texture_path(name: &str) -> (path: String)
    ensures
        path@ == spec_texture_path(name@),
{
    let mut path = String::from_str("assets/textures/");
    path.append(name);
    path.append(".png");
    path
}

} // verus!
