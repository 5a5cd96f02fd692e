//! Directional focus between panes: from the focused pane's painted center,
//! move to the nearest pane whose center lies in the requested direction.

use vstd::prelude::*;
use std::collections::HashMap;
use crate::panes::{FocusDir, PaneForest};

verus! {

broadcast use vstd::std_specs::hash::group_hash_axioms;

/// A pane's painted center, in any fixed unit shared by all panes.
pub type Center = (i32, i32);

/// Whether center `c` lies strictly in direction `dir` from `from`.
pub open spec fn lies_toward(dir: FocusDir, from: Center, c: Center) -> bool {
    match dir {
        FocusDir::Left => c.0 < from.0,
        FocusDir::Right => c.0 > from.0,
        FocusDir::Up => c.1 < from.1,
        FocusDir::Down => c.1 > from.1,
    }
}

/// Squared distance between two centers.
pub open spec fn dist2(a: Center, b: Center) -> int {
    (b.0 - a.0) * (b.0 - a.0) + (b.1 - a.1) * (b.1 - a.1)
}

/// Leaf `k` (in left-to-right order) can take the focus: it is another
/// pane with a known center in direction `dir` from the focused one.
pub open spec fn is_candidate(
    ids: Seq<usize>,
    k: int,
    focused: usize,
    centers: Map<usize, Center>,
    dir: FocusDir,
) -> bool {
    &&& 0 <= k < ids.len()
    &&& ids[k] != focused
    &&& centers.contains_key(ids[k])
    &&& lies_toward(dir, centers[focused], centers[ids[k]])
}

/// Leaf `k` is the nearest candidate, the leftmost one among equals.
pub open spec fn is_nearest(
    ids: Seq<usize>,
    k: int,
    focused: usize,
    centers: Map<usize, Center>,
    dir: FocusDir,
) -> bool {
    &&& is_candidate(ids, k, focused, centers, dir)
    &&& forall|j: int|
        is_candidate(ids, j, focused, centers, dir) ==> dist2(centers[focused], centers[ids[k]]) <= dist2(
            centers[focused],
            centers[#[trigger] ids[j]],
        )
    &&& forall|j: int|
        0 <= j < k && is_candidate(ids, j, focused, centers, dir) ==> dist2(centers[focused], centers[ids[k]])
            < dist2(centers[focused], centers[#[trigger] ids[j]])
}

fn sq_dist(a: Center, b: Center) -> (r: i128)
    ensures
        r == dist2(a, b),
{
    let dx: i128 = b.0 as i128 - a.0 as i128;
    let dy: i128 = b.1 as i128 - a.1 as i128;
    assert(dx * dx <= 0x1_0000_0000_0000_0000) by (nonlinear_arith)
        requires -0x1_0000_0000 <= dx <= 0x1_0000_0000;
    assert(dy * dy <= 0x1_0000_0000_0000_0000) by (nonlinear_arith)
        requires -0x1_0000_0000 <= dy <= 0x1_0000_0000;
    assert(dx * dx >= 0 && dy * dy >= 0) by (nonlinear_arith);
    dx * dx + dy * dy
}

impl PaneForest {
    /// Move focus to the nearest pane in `dir`, judged by the panes'
    /// painted centers in `centers`: the leftmost of the closest panes
    /// lying strictly that way. Nothing changes when no pane lies that way,
    /// or before the focused pane has a center (nothing painted yet).
    pub fn focus_dir(&mut self, dir: FocusDir, centers: &HashMap<usize, Center>)
        requires
            old(self).wf(),
        ensures
            final(self).wf(),
            final(self).root == old(self).root,
            final(self).next_node_id == old(self).next_node_id,
            ({
                let ids = old(self).root.leaves();
                let f = old(self).focused_terminal;
                if centers@.contains_key(f) && exists|k: int| is_candidate(ids, k, f, centers@, dir) {
                    exists|k: int| is_nearest(ids, k, f, centers@, dir) && final(self).focused_terminal == ids[k]
                } else {
                    final(self).focused_terminal == f
                }
            }),
    {
        let f = self.focused_terminal;
        let fc: Center = match centers.get(&f) {
            Some(c) => *c,
            None => {
                return;
            },
        };
        let ids = self.root.leaf_ids();
        let ghost gids = ids@;
        let ghost cm = centers@;
        let mut best: Option<(usize, i128)> = None;
        let ghost mut best_k: int = -1;
        let mut k: usize = 0;
        while k < ids.len()
            invariant
                k <= gids.len(),
                ids@ == gids,
                cm == centers@,
                cm.contains_key(f),
                cm[f] == fc,
                match best {
                    None => forall|j: int| 0 <= j < k ==> !is_candidate(gids, j, f, cm, dir),
                    Some((id, d)) => {
                        &&& 0 <= best_k < k
                        &&& id == gids[best_k]
                        &&& is_candidate(gids, best_k, f, cm, dir)
                        &&& d == dist2(fc, cm[id])
                        &&& forall|j: int| 0 <= j < k && is_candidate(gids, j, f, cm, dir) ==> d <= dist2(fc, cm[#[trigger] gids[j]])
                        &&& forall|j: int| 0 <= j < best_k && is_candidate(gids, j, f, cm, dir) ==> d < dist2(fc, cm[#[trigger] gids[j]])
                    },
                },
            decreases gids.len() - k,
        {
            let id = ids[k];
            if id != f {
                match centers.get(&id) {
                    Some(c) => {
                        let toward = match dir {
                            FocusDir::Left => c.0 < fc.0,
                            FocusDir::Right => c.0 > fc.0,
                            FocusDir::Up => c.1 < fc.1,
                            FocusDir::Down => c.1 > fc.1,
                        };
                        if toward {
                            let d = sq_dist(fc, *c);
                            let better = match best {
                                None => true,
                                Some((_, bd)) => d < bd,
                            };
                            if better {
                                best = Some((id, d));
                                proof {
                                    best_k = k as int;
                                }
                            }
                        }
                    },
                    None => {},
                }
            }
            k = k + 1;
        }
        match best {
            Some((id, _)) => {
                proof {
                    assert(is_nearest(gids, best_k, f, cm, dir));
                    assert(self.root.leaves().contains(id));
                }
                self.focused_terminal = id;
            },
            None => {},
        }
    }
}

} // verus!
