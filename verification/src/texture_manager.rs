//! Registry for texture lookups.  Entities are drawn as plain filled
//! rectangles, so loading a target takes no work and registers nothing.

use vstd::prelude::*;

verus! {

/// Maps texture names to their sources.
pub struct TextureManager {
    dict: Vec<(String, String)>,
}

impl TextureManager {
    /// The registered name-to-source entries.
    pub closed spec fn entries(&self) -> Seq<(String, String)> {
        self.dict@
    }

    /// An empty registry.
    pub fn new() -> (r: TextureManager)
        ensures
            r.entries() == Seq::<(String, String)>::empty(),
    {
        let r = TextureManager { dict: Vec::new() };
        proof {
            assert(r.entries() =~= Seq::<(String, String)>::empty());
        }
        r
    }

    /// How many targets are registered.
    pub fn entry_count(&self) -> (r: usize)
        ensures
            r == self.entries().len(),
    {
        self.dict.len()
    }

    /// Load the drawing targets.  Rectangle-rendered entities need no
    /// textures, so this registers nothing and changes nothing.
    pub fn load_target(&mut self)
        ensures
            final(self).entries() == old(self).entries(),
    {
    }
}

} // verus!
