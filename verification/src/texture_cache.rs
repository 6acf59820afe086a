//! The textures that have been loaded, by the path that a zone gives them.
use vstd::hash_map::StringHashMap;
use vstd::prelude::*;

use crate::texture::{Contents, Texture};

verus! {

/// What a cache holds after a texture has been stored for a path: a path that has one keeps it.
pub open spec fn stored(
    textures: Map<Seq<char>, Contents>,
    path: Seq<char>,
    texture: Contents,
) -> Map<Seq<char>, Contents> {
    if textures.contains_key(path) {
        textures
    } else {
        textures.insert(path, texture)
    }
}

/// Loaded textures, by path.
pub struct TextureCache {
    entries: StringHashMap<Texture>,
}

impl View for TextureCache {
    type V = Map<Seq<char>, Contents>;

    closed spec fn view(&self) -> Map<Seq<char>, Contents> {
        self.entries@.map_values(|t: Texture| t@)
    }
}

impl TextureCache {
    /// A cache that holds nothing.
    pub fn new() -> (out: TextureCache)
        ensures
            out@ == Map::<Seq<char>, Contents>::empty(),
    {
        let out = TextureCache { entries: StringHashMap::new() };
        assert(out@ =~= Map::<Seq<char>, Contents>::empty());
        out
    }

    /// The texture that was stored for a path.
    pub fn get(&self, path: &str) -> (out: Option<&Texture>)
        ensures
            match out {
                Some(t) => self@.contains_key(path@) && t@ == self@[path@],
                None => !self@.contains_key(path@),
            },
    {
        self.entries.get(path)
    }

    /// Stores a texture for a path that has none yet. A path that has one keeps it.
    pub fn insert(&mut self, path: &str, texture: Texture)
        ensures
            final(self)@ == stored(old(self)@, path@, texture@),
    {
        if self.get(path).is_none() {
            self.entries.insert(path.to_owned(), texture);
            assert(self@ =~= stored(old(self)@, path@, texture@));
        }
    }
}

/// A path gives back the first texture that was stored for it, whatever is stored for it or for
/// other paths later; and storing changes no other path.
pub proof fn first_stored_texture_is_kept(
    textures: Map<Seq<char>, Contents>,
    path: Seq<char>,
    texture: Contents,
    other: Seq<char>,
    later: Contents,
)
    ensures
        stored(textures, path, texture).contains_key(path),
        !textures.contains_key(path) ==> stored(textures, path, texture)[path] == texture,
        textures.contains_key(path) ==> stored(textures, path, texture)[path] == textures[path],
        stored(stored(textures, path, texture), other, later).contains_key(path),
        stored(stored(textures, path, texture), other, later)[path] == stored(
            textures,
            path,
            texture,
        )[path],
        other != path ==> {
            &&& stored(textures, path, texture).contains_key(other) == textures.contains_key(other)
            &&& textures.contains_key(other) ==> stored(textures, path, texture)[other]
                == textures[other]
        },
{
}

} // verus!
