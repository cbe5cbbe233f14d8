use std::collections::HashMap;
use vstd::prelude::*;

verus! {

/// A voxel's material, named by a numeric identifier. Identifier 0 is air.
#[derive(Clone, Copy, Debug, PartialEq, Eq, Hash, Structural)]
pub struct Block {
    pub id: u8,
}

/// Texture indices of the six faces of a block.
#[derive(Clone, Copy, Debug, PartialEq, Eq, Structural)]
pub struct BlockTexture {
    pub front: u8,
    pub back: u8,
    pub left: u8,
    pub right: u8,
    pub top: u8,
    pub bottom: u8,
}

/// Static attributes of one kind of block.
#[derive(Clone, Copy, Debug, PartialEq, Eq, Structural)]
pub struct BlockProperties {
    pub opaque: bool,
    pub texture: BlockTexture,
}

/// Maps block identifiers to their properties.
pub struct BlockRegistry {
    data: HashMap<u8, BlockProperties>,
}

impl View for BlockRegistry {
    type V = Map<u8, BlockProperties>;

    closed spec fn view(&self) -> Map<u8, BlockProperties> {
        self.data@
    }
}

impl Clone for BlockRegistry {
    /// A registry with the same entries.
    fn clone(&self) -> (copy: Self)
        ensures
            copy@ == self@,
    {
        Self { data: self.data.clone() }
    }
}

impl BlockRegistry {
    /// A registry that knows exactly the entries of `data`.
    pub fn new(data: HashMap<u8, BlockProperties>) -> (registry: Self)
        ensures
            registry@ == data@,
    {
        Self { data }
    }

    /// The properties registered for `id`, if any.
    pub fn properties(&self, id: u8) -> (found: Option<&BlockProperties>)
        ensures
            match found {
                Some(p) => self@.contains_key(id) && *p == self@[id],
                None => !self@.contains_key(id),
            },
    {
        self.data.get(&id)
    }

    /// Whether `id` is registered and marked opaque. Unknown identifiers are
    /// transparent, so that they never hide a neighbouring face.
    pub fn is_opaque(&self, id: u8) -> (opaque: bool)
        ensures
            opaque == (self@.contains_key(id) && self@[id].opaque),
    {
        if let Some(p) = self.properties(id) {
            p.opaque
        } else {
            false
        }
    }
}

} // verus!
