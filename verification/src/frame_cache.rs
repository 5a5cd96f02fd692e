//! The last rasterized frame of each terminal, with the hash of the grid
//! content it was drawn from: a repaint whose content hash matches reuses
//! the frame; otherwise the new frame replaces it and the old one is handed
//! back, so the caller can free its texture.

use vstd::prelude::*;
use std::collections::HashMap;

verus! {

broadcast use vstd::std_specs::hash::group_hash_axioms;

/// Frames of type `I` by terminal key, each with its content hash.
pub struct FrameCache<I> {
    frames: HashMap<usize, (u64, I)>,
}

impl<I> View for FrameCache<I> {
    type V = Map<usize, (u64, I)>;

    closed spec fn view(&self) -> Map<usize, (u64, I)> {
        self.frames@
    }
}

impl<I> FrameCache<I> {
    /// A cache holding no frame.
    pub fn new() -> (r: Self)
        ensures
            r@ == Map::<usize, (u64, I)>::empty(),
    {
        FrameCache { frames: HashMap::new() }
    }

    /// The frame of `key` if it was drawn from content hashing to
    /// `content_hash`; `None` when the terminal has no frame or its content
    /// changed.
    pub fn cached(&self, key: usize, content_hash: u64) -> (r: Option<&I>)
        ensures
            match r {
                Some(image) => self@.contains_key(key) && self@[key].0 == content_hash && *image
                    == self@[key].1,
                None => !self@.contains_key(key) || self@[key].0 != content_hash,
            },
    {
        match self.frames.get(&key) {
            Some(entry) => {
                if entry.0 == content_hash {
                    Some(&entry.1)
                } else {
                    None
                }
            },
            None => None,
        }
    }

    /// Keep `image`, drawn from content hashing to `content_hash`, as the
    /// frame of `key`; returns the frame it replaces, if any.
    pub fn store(&mut self, key: usize, content_hash: u64, image: I) -> (r: Option<I>)
        ensures
            final(self)@ == old(self)@.insert(key, (content_hash, image)),
            match r {
                Some(old_image) => old(self)@.contains_key(key) && old_image == old(self)@[key].1,
                None => !old(self)@.contains_key(key),
            },
    {
        match self.frames.insert(key, (content_hash, image)) {
            Some(entry) => Some(entry.1),
            None => None,
        }
    }

    /// Forget the frame of `key`, for a pane that is going away, and hand
    /// it back if there was one.
    pub fn evict(&mut self, key: usize) -> (r: Option<I>)
        ensures
            final(self)@ == old(self)@.remove(key),
            match r {
                Some(old_image) => old(self)@.contains_key(key) && old_image == old(self)@[key].1,
                None => !old(self)@.contains_key(key),
            },
    {
        match self.frames.remove(&key) {
            Some(entry) => Some(entry.1),
            None => None,
        }
    }
}

/// A repaint right after storing a frame, with the same content, reuses
/// that frame; with other content it finds none.
pub proof fn lemma_store_then_cached<I>(m: Map<usize, (u64, I)>, key: usize, h: u64, image: I, h2: u64)
    ensures
        m.insert(key, (h, image)).contains_key(key),
        m.insert(key, (h, image))[key] == (h, image),
        h2 != h ==> m.insert(key, (h, image))[key].0 != h2,
{
}

} // verus!
