//! Which files hold character descriptors.

use vstd::prelude::*;

verus! {

/// Loads character descriptors. Reading and parsing a file is the host's
/// work; the loader says which files are meant.
#[derive(Clone, Copy, Debug, Default)]
pub struct CharacterLoader;

impl CharacterLoader {
    /// The file extensions of character descriptors.
    pub fn extensions(&self) -> (extensions: [&'static str; 2])
        ensures
            extensions[0]@ == "character.yml"@,
            extensions[1]@ == "character.yaml"@,
    {
        ["character.yml", "character.yaml"]
    }
}

} // verus!
