//! Pane-split trees: one binary tree of terminal leaves per tab, with the
//! split and close operations that reshape it.

use vstd::prelude::*;

verus! {

/// Direction of a split.
#[derive(Debug, Clone, Copy, PartialEq, Eq, Structural)]
pub enum SplitDir {
    /// Left | right.
    Horizontal,
    /// Top / bottom.
    Vertical,
}

/// Direction of a focus move or resize.
#[derive(Debug, Clone, Copy, PartialEq, Eq, Structural)]
pub enum FocusDir {
    Left,
    Right,
    Up,
    Down,
}

} // verus!

verus! {

/// Split ratios are kept in ten-thousandths of the container's extent along
/// the split axis: 0 = all left/top, 10000 = all right/bottom.
pub const RATIO_SCALE: u32 = 10000;

/// The ratio a fresh split starts at (one half).
pub const RATIO_HALF: u32 = 5000;

/// The smallest ratio a resize or drag can set (one tenth).
pub const RATIO_MIN: u32 = 1000;

/// The largest ratio a resize or drag can set (nine tenths).
pub const RATIO_MAX: u32 = 9000;

/// One keyboard resize step (five hundredths).
pub const RESIZE_STEP: u32 = 500;

/// `x` clamped to `[RATIO_MIN, RATIO_MAX]`.
pub open spec fn clamp_ratio(x: int) -> u32 {
    if x < RATIO_MIN {
        RATIO_MIN
    } else if x > RATIO_MAX {
        RATIO_MAX
    } else {
        x as u32
    }
}

/// Binary tree of panes: leaves are terminals, inner nodes are splits.
#[derive(Debug)]
pub enum PaneTree {
    Leaf { terminal_id: usize },
    Split {
        /// Identifier of the split, stable across restructuring elsewhere.
        node_id: u32,
        dir: SplitDir,
        /// Share of the first child, in ten-thousandths (see `RATIO_SCALE`).
        ratio: u32,
        left: Box<PaneTree>,
        right: Box<PaneTree>,
    },
}

impl PaneTree {
    /// The terminal ids of the leaves, left to right.
    pub open spec fn leaves(self) -> Seq<usize>
        decreases self,
    {
        match self {
            PaneTree::Leaf { terminal_id } => seq![terminal_id],
            PaneTree::Split { left, right, .. } => left.leaves() + right.leaves(),
        }
    }

    /// The ids of the split nodes.
    pub open spec fn node_set(self) -> Set<u32>
        decreases self,
    {
        match self {
            PaneTree::Leaf { .. } => Set::empty(),
            PaneTree::Split { node_id, left, right, .. } => left.node_set().union(
                right.node_set(),
            ).insert(node_id),
        }
    }

    /// No two split nodes share an id.
    pub open spec fn ids_distinct(self) -> bool
        decreases self,
    {
        match self {
            PaneTree::Leaf { .. } => true,
            PaneTree::Split { node_id, left, right, .. } => {
                &&& left.ids_distinct()
                &&& right.ids_distinct()
                &&& !left.node_set().contains(node_id)
                &&& !right.node_set().contains(node_id)
                &&& forall|x: u32| !(left.node_set().contains(x) && right.node_set().contains(x))
            },
        }
    }

    /// Every split ratio lies in `[RATIO_MIN, RATIO_MAX]`.
    pub open spec fn ratios_in_range(self) -> bool
        decreases self,
    {
        match self {
            PaneTree::Leaf { .. } => true,
            PaneTree::Split { ratio, left, right, .. } => {
                &&& RATIO_MIN <= ratio <= RATIO_MAX
                &&& left.ratios_in_range()
                &&& right.ratios_in_range()
            },
        }
    }

    /// Replace the first leaf `target` (left to right) by a split of
    /// `target` | `new_id` with id `nid` at one half; the flag says whether
    /// `target` was found.
    pub open spec fn split_spec(self, target: usize, dir: SplitDir, new_id: usize, nid: u32) -> (
        PaneTree,
        bool,
    )
        decreases self,
    {
        match self {
            PaneTree::Leaf { terminal_id } => if terminal_id == target {
                (
                    PaneTree::Split {
                        node_id: nid,
                        dir,
                        ratio: RATIO_HALF,
                        left: Box::new(PaneTree::Leaf { terminal_id: target }),
                        right: Box::new(PaneTree::Leaf { terminal_id: new_id }),
                    },
                    true,
                )
            } else {
                (self, false)
            },
            PaneTree::Split { node_id, dir: d, ratio, left, right } => {
                let (l2, ok) = left.split_spec(target, dir, new_id, nid);
                if ok {
                    (PaneTree::Split { node_id, dir: d, ratio, left: Box::new(l2), right }, true)
                } else {
                    let (r2, ok2) = right.split_spec(target, dir, new_id, nid);
                    (PaneTree::Split { node_id, dir: d, ratio, left, right: Box::new(r2) }, ok2)
                }
            },
        }
    }

    /// Remove leaf `target` from the split that directly holds it (checking
    /// a split's own children before descending, left before right), the
    /// sibling taking the split's place; the flag says whether a leaf was
    /// removed. A lone leaf is never removed.
    pub open spec fn remove_spec(self, target: usize) -> (PaneTree, bool)
        decreases self,
    {
        match self {
            PaneTree::Leaf { .. } => (self, false),
            PaneTree::Split { node_id, dir, ratio, left, right } => {
                if left.is_leaf_of(target) {
                    (*right, true)
                } else if right.is_leaf_of(target) {
                    (*left, true)
                } else {
                    let (l2, ok) = left.remove_spec(target);
                    if ok {
                        (PaneTree::Split { node_id, dir, ratio, left: Box::new(l2), right }, true)
                    } else {
                        let (r2, ok2) = right.remove_spec(target);
                        (PaneTree::Split { node_id, dir, ratio, left, right: Box::new(r2) }, ok2)
                    }
                }
            },
        }
    }

    /// Whether this node is the leaf `target`.
    pub open spec fn is_leaf_of(self, target: usize) -> bool {
        match self {
            PaneTree::Leaf { terminal_id } => terminal_id == target,
            PaneTree::Split { .. } => false,
        }
    }

    /// Walk towards leaf `target` (into the left child when it holds
    /// `target`, else the right) and add `delta` to the ratio of the deepest
    /// split on that path whose direction is `tdir`, clamped to
    /// `[RATIO_MIN, RATIO_MAX]`; the flag says whether a split was adjusted.
    pub open spec fn adjust_spec(self, target: usize, tdir: SplitDir, delta: int) -> (PaneTree, bool)
        decreases self,
    {
        match self {
            PaneTree::Leaf { .. } => (self, false),
            PaneTree::Split { node_id, dir, ratio, left, right } => {
                let in_left = left.leaves().contains(target);
                if !in_left && !right.leaves().contains(target) {
                    (self, false)
                } else {
                    let (c2, found) = if in_left {
                        left.adjust_spec(target, tdir, delta)
                    } else {
                        right.adjust_spec(target, tdir, delta)
                    };
                    if found {
                        if in_left {
                            (
                                PaneTree::Split { node_id, dir, ratio, left: Box::new(c2), right },
                                true,
                            )
                        } else {
                            (
                                PaneTree::Split { node_id, dir, ratio, left, right: Box::new(c2) },
                                true,
                            )
                        }
                    } else if dir == tdir {
                        (
                            PaneTree::Split {
                                node_id,
                                dir,
                                ratio: clamp_ratio(ratio + delta),
                                left,
                                right,
                            },
                            true,
                        )
                    } else {
                        (self, false)
                    }
                }
            },
        }
    }

    /// Set the ratio of the first split (pre-order) with id `target_id` to
    /// `rx` for a horizontal split or `ry` for a vertical one, clamped to
    /// `[RATIO_MIN, RATIO_MAX]`; the flag says whether it was found.
    pub open spec fn drag_spec(self, target_id: u32, rx: int, ry: int) -> (PaneTree, bool)
        decreases self,
    {
        match self {
            PaneTree::Leaf { .. } => (self, false),
            PaneTree::Split { node_id, dir, ratio, left, right } => {
                if node_id == target_id {
                    let raw = match dir {
                        SplitDir::Horizontal => rx,
                        SplitDir::Vertical => ry,
                    };
                    (PaneTree::Split { node_id, dir, ratio: clamp_ratio(raw), left, right }, true)
                } else {
                    let (l2, ok) = left.drag_spec(target_id, rx, ry);
                    if ok {
                        (PaneTree::Split { node_id, dir, ratio, left: Box::new(l2), right }, true)
                    } else {
                        let (r2, ok2) = right.drag_spec(target_id, rx, ry);
                        (PaneTree::Split { node_id, dir, ratio, left, right: Box::new(r2) }, ok2)
                    }
                }
            },
        }
    }

    /// A single leaf.
    pub fn leaf(terminal_id: usize) -> (r: PaneTree)
        ensures
            r == (PaneTree::Leaf { terminal_id }),
    {
        PaneTree::Leaf { terminal_id }
    }

    /// The terminal ids of the leaves, left to right.
    pub fn leaf_ids(&self) -> (r: Vec<usize>)
        ensures
            r@ == self.leaves(),
        decreases self,
    {
        match self {
            PaneTree::Leaf { terminal_id } => vec![*terminal_id],
            PaneTree::Split { left, right, .. } => {
                let mut ids = left.leaf_ids();
                let mut rest = right.leaf_ids();
                ids.append(&mut rest);
                ids
            },
        }
    }

    /// The number of leaves.
    pub fn leaf_count(&self) -> (r: usize)
        requires
            self.leaves().len() <= usize::MAX,
        ensures
            r == self.leaves().len(),
        decreases self,
    {
        match self {
            PaneTree::Leaf { .. } => 1,
            PaneTree::Split { left, right, .. } => left.leaf_count() + right.leaf_count(),
        }
    }

    /// Whether this node is a leaf.
    pub fn is_leaf(&self) -> (r: bool)
        ensures
            r == (self is Leaf),
    {
        match self {
            PaneTree::Leaf { .. } => true,
            PaneTree::Split { .. } => false,
        }
    }
}

/// Whether `node` is the leaf `target`.
fn is_leaf_of(node: &PaneTree, target: usize) -> (r: bool)
    ensures
        r == node.is_leaf_of(target),
{
    match node {
        PaneTree::Leaf { terminal_id } => *terminal_id == target,
        PaneTree::Split { .. } => false,
    }
}

/// Whether leaf `target` occurs in `node`.
pub(crate) fn contains_leaf(node: &PaneTree, target: usize) -> (r: bool)
    ensures
        r == node.leaves().contains(target),
    decreases node,
{
    match node {
        PaneTree::Leaf { terminal_id } => {
            proof {
                assert(node.leaves()[0] == *terminal_id);
            }
            *terminal_id == target
        },
        PaneTree::Split { left, right, .. } => {
            let a = contains_leaf(left, target);
            let b = contains_leaf(right, target);
            proof {
                lemma_concat_contains(left.leaves(), right.leaves(), target);
            }
            a || b
        },
    }
}

proof fn lemma_concat_contains(a: Seq<usize>, b: Seq<usize>, x: usize)
    ensures
        (a + b).contains(x) <==> (a.contains(x) || b.contains(x)),
{
    if a.contains(x) {
        let i = choose|i: int| 0 <= i < a.len() && a[i] == x;
        assert((a + b)[i] == x);
    }
    if b.contains(x) {
        let i = choose|i: int| 0 <= i < b.len() && b[i] == x;
        assert((a + b)[a.len() + i] == x);
    }
    if (a + b).contains(x) {
        let i = choose|i: int| 0 <= i < (a + b).len() && (a + b)[i] == x;
        if i < a.len() {
            assert(a[i] == x);
        } else {
            assert(b[i - a.len()] == x);
        }
    }
}

/// Split the first leaf `target` into `target` | `new_id` (split id `nid`,
/// direction `dir`, ratio one half).
fn split_node(node: PaneTree, target: usize, dir: SplitDir, new_id: usize, nid: u32) -> (r: (
    PaneTree,
    bool,
))
    ensures
        r == node.split_spec(target, dir, new_id, nid),
    decreases node,
{
    match node {
        PaneTree::Leaf { terminal_id } => {
            if terminal_id == target {
                (
                    PaneTree::Split {
                        node_id: nid,
                        dir,
                        ratio: RATIO_HALF,
                        left: Box::new(PaneTree::Leaf { terminal_id: target }),
                        right: Box::new(PaneTree::Leaf { terminal_id: new_id }),
                    },
                    true,
                )
            } else {
                (PaneTree::Leaf { terminal_id }, false)
            }
        },
        PaneTree::Split { node_id, dir: d, ratio, left, right } => {
            let (l2, ok) = split_node(*left, target, dir, new_id, nid);
            if ok {
                (PaneTree::Split { node_id, dir: d, ratio, left: Box::new(l2), right }, true)
            } else {
                proof {
                    lemma_split_unchanged(*left, target, dir, new_id, nid);
                }
                let (r2, ok2) = split_node(*right, target, dir, new_id, nid);
                (PaneTree::Split { node_id, dir: d, ratio, left: Box::new(l2), right: Box::new(r2) }, ok2)
            }
        },
    }
}

proof fn lemma_split_unchanged(t: PaneTree, target: usize, dir: SplitDir, new_id: usize, nid: u32)
    ensures
        !t.split_spec(target, dir, new_id, nid).1 ==> t.split_spec(target, dir, new_id, nid).0
            == t,
    decreases t,
{
    match t {
        PaneTree::Leaf { .. } => {},
        PaneTree::Split { left, right, .. } => {
            lemma_split_unchanged(*left, target, dir, new_id, nid);
            lemma_split_unchanged(*right, target, dir, new_id, nid);
        },
    }
}

} // verus!

verus! {

proof fn lemma_remove_unchanged(t: PaneTree, target: usize)
    ensures
        !t.remove_spec(target).1 ==> t.remove_spec(target).0 == t,
    decreases t,
{
    match t {
        PaneTree::Leaf { .. } => {},
        PaneTree::Split { left, right, .. } => {
            lemma_remove_unchanged(*left, target);
            lemma_remove_unchanged(*right, target);
        },
    }
}

proof fn lemma_adjust_unchanged(t: PaneTree, target: usize, tdir: SplitDir, delta: int)
    ensures
        !t.adjust_spec(target, tdir, delta).1 ==> t.adjust_spec(target, tdir, delta).0 == t,
    decreases t,
{
    match t {
        PaneTree::Leaf { .. } => {},
        PaneTree::Split { left, right, .. } => {
            lemma_adjust_unchanged(*left, target, tdir, delta);
            lemma_adjust_unchanged(*right, target, tdir, delta);
        },
    }
}

proof fn lemma_drag_unchanged(t: PaneTree, target_id: u32, rx: int, ry: int)
    ensures
        !t.drag_spec(target_id, rx, ry).1 ==> t.drag_spec(target_id, rx, ry).0 == t,
    decreases t,
{
    match t {
        PaneTree::Leaf { .. } => {},
        PaneTree::Split { left, right, .. } => {
            lemma_drag_unchanged(*left, target_id, rx, ry);
            lemma_drag_unchanged(*right, target_id, rx, ry);
        },
    }
}

/// Remove leaf `target` from the split that directly holds it, promoting
/// the sibling.
fn remove_leaf(node: PaneTree, target: usize) -> (r: (PaneTree, bool))
    ensures
        r == node.remove_spec(target),
    decreases node,
{
    match node {
        PaneTree::Leaf { terminal_id } => (PaneTree::Leaf { terminal_id }, false),
        PaneTree::Split { node_id, dir, ratio, left, right } => {
            if is_leaf_of(&left, target) {
                return (*right, true);
            }
            if is_leaf_of(&right, target) {
                return (*left, true);
            }
            let (l2, ok) = remove_leaf(*left, target);
            if ok {
                (PaneTree::Split { node_id, dir, ratio, left: Box::new(l2), right }, true)
            } else {
                proof {
                    lemma_remove_unchanged(*left, target);
                }
                let (r2, ok2) = remove_leaf(*right, target);
                (PaneTree::Split { node_id, dir, ratio, left: Box::new(l2), right: Box::new(r2) }, ok2)
            }
        },
    }
}

/// `ratio + delta` clamped to `[RATIO_MIN, RATIO_MAX]`.
fn clamp_add(ratio: u32, delta: i64) -> (r: u32)
    ensures
        r == clamp_ratio(ratio + delta),
{
    if delta >= RATIO_MAX as i64 {
        return RATIO_MAX;
    }
    if delta <= -(u32::MAX as i64) {
        return RATIO_MIN;
    }
    let x: i64 = ratio as i64 + delta;
    if x < RATIO_MIN as i64 {
        RATIO_MIN
    } else if x > RATIO_MAX as i64 {
        RATIO_MAX
    } else {
        x as u32
    }
}

/// `x` clamped to `[RATIO_MIN, RATIO_MAX]`.
fn clamp_i64(x: i64) -> (r: u32)
    ensures
        r == clamp_ratio(x as int),
{
    if x < RATIO_MIN as i64 {
        RATIO_MIN
    } else if x > RATIO_MAX as i64 {
        RATIO_MAX
    } else {
        x as u32
    }
}

/// Adjust the ratio of the deepest split in direction `tdir` on the path to
/// leaf `target` by `delta` (clamped).
fn adjust_parent_split(node: PaneTree, target: usize, tdir: SplitDir, delta: i64) -> (r: (
    PaneTree,
    bool,
))
    ensures
        r == node.adjust_spec(target, tdir, delta as int),
    decreases node,
{
    match node {
        PaneTree::Leaf { terminal_id } => (PaneTree::Leaf { terminal_id }, false),
        PaneTree::Split { node_id, dir, ratio, left, right } => {
            let in_left = contains_leaf(&left, target);
            if !in_left && !contains_leaf(&right, target) {
                return (PaneTree::Split { node_id, dir, ratio, left, right }, false);
            }
            if in_left {
                let (c2, found) = adjust_parent_split(*left, target, tdir, delta);
                if found {
                    return (PaneTree::Split { node_id, dir, ratio, left: Box::new(c2), right }, true);
                }
                proof {
                    lemma_adjust_unchanged(*left, target, tdir, delta as int);
                }
                if dir == tdir {
                    (
                        PaneTree::Split {
                            node_id,
                            dir,
                            ratio: clamp_add(ratio, delta),
                            left: Box::new(c2),
                            right,
                        },
                        true,
                    )
                } else {
                    (PaneTree::Split { node_id, dir, ratio, left: Box::new(c2), right }, false)
                }
            } else {
                let (c2, found) = adjust_parent_split(*right, target, tdir, delta);
                if found {
                    return (PaneTree::Split { node_id, dir, ratio, left, right: Box::new(c2) }, true);
                }
                proof {
                    lemma_adjust_unchanged(*right, target, tdir, delta as int);
                }
                if dir == tdir {
                    (
                        PaneTree::Split {
                            node_id,
                            dir,
                            ratio: clamp_add(ratio, delta),
                            left,
                            right: Box::new(c2),
                        },
                        true,
                    )
                } else {
                    (PaneTree::Split { node_id, dir, ratio, left, right: Box::new(c2) }, false)
                }
            }
        },
    }
}

/// Set the ratio of the split `target_id` from the pointer position, given
/// as the ratio it makes along each axis (`rx` horizontally, `ry`
/// vertically), clamped.
fn drag_split_ratio(node: PaneTree, target_id: u32, rx: i64, ry: i64) -> (r: (PaneTree, bool))
    ensures
        r == node.drag_spec(target_id, rx as int, ry as int),
    decreases node,
{
    match node {
        PaneTree::Leaf { terminal_id } => (PaneTree::Leaf { terminal_id }, false),
        PaneTree::Split { node_id, dir, ratio, left, right } => {
            if node_id == target_id {
                let raw = match dir {
                    SplitDir::Horizontal => rx,
                    SplitDir::Vertical => ry,
                };
                return (PaneTree::Split { node_id, dir, ratio: clamp_i64(raw), left, right }, true);
            }
            let (l2, ok) = drag_split_ratio(*left, target_id, rx, ry);
            if ok {
                (PaneTree::Split { node_id, dir, ratio, left: Box::new(l2), right }, true)
            } else {
                proof {
                    lemma_drag_unchanged(*left, target_id, rx as int, ry as int);
                }
                let (r2, ok2) = drag_split_ratio(*right, target_id, rx, ry);
                (PaneTree::Split { node_id, dir, ratio, left: Box::new(l2), right: Box::new(r2) }, ok2)
            }
        },
    }
}

} // verus!

verus! {

proof fn lemma_leaves_nonempty(t: PaneTree)
    ensures
        t.leaves().len() >= 1,
        t is Split ==> t.leaves().len() >= 2,
    decreases t,
{
    match t {
        PaneTree::Leaf { .. } => {},
        PaneTree::Split { left, right, .. } => {
            lemma_leaves_nonempty(*left);
            lemma_leaves_nonempty(*right);
        },
    }
}

proof fn lemma_split_found(t: PaneTree, target: usize, dir: SplitDir, new_id: usize, nid: u32)
    ensures
        t.split_spec(target, dir, new_id, nid).1 == t.leaves().contains(target),
    decreases t,
{
    match t {
        PaneTree::Leaf { terminal_id } => {
            assert(t.leaves()[0] == terminal_id);
        },
        PaneTree::Split { left, right, .. } => {
            lemma_split_found(*left, target, dir, new_id, nid);
            lemma_split_found(*right, target, dir, new_id, nid);
            lemma_concat_contains(left.leaves(), right.leaves(), target);
        },
    }
}

/// The leaves after a successful split, given the first index `k` of the
/// split leaf.
pub open spec fn split_leaves_at(t: PaneTree, target: usize, new_id: usize, k: int) -> bool {
    &&& 0 <= k < t.leaves().len()
    &&& t.leaves()[k] == target
    &&& forall|j: int| 0 <= j < k ==> t.leaves()[j] != target
}

proof fn lemma_split_leaves(t: PaneTree, target: usize, dir: SplitDir, new_id: usize, nid: u32) -> (k: int)
    requires
        t.leaves().contains(target),
    ensures
        split_leaves_at(t, target, new_id, k),
        t.split_spec(target, dir, new_id, nid).0.leaves() == t.leaves().insert(k + 1, new_id),
    decreases t,
{
    match t {
        PaneTree::Leaf { terminal_id } => {
            assert(t.leaves()[0] == terminal_id);
            let r = t.split_spec(target, dir, new_id, nid).0;
            let l = PaneTree::Leaf { terminal_id: target };
            let n = PaneTree::Leaf { terminal_id: new_id };
            assert(r == PaneTree::Split {
                node_id: nid,
                dir,
                ratio: RATIO_HALF,
                left: Box::new(l),
                right: Box::new(n),
            });
            assert(l.leaves() == seq![target]);
            assert(n.leaves() == seq![new_id]);
            assert(r.leaves() =~= t.leaves().insert(1, new_id));
            0
        },
        PaneTree::Split { left, right, .. } => {
            let a = left.leaves();
            let b = right.leaves();
            lemma_concat_contains(a, b, target);
            lemma_split_found(*left, target, dir, new_id, nid);
            if a.contains(target) {
                let k = lemma_split_leaves(*left, target, dir, new_id, nid);
                assert((a + b).insert(k + 1, new_id) =~= a.insert(k + 1, new_id) + b);
                assert((a + b)[k] == target);
                assert forall|j: int| 0 <= j < k implies (a + b)[j] != target by {
                    assert((a + b)[j] == a[j]);
                }
                k
            } else {
                lemma_split_unchanged(*left, target, dir, new_id, nid);
                let k = lemma_split_leaves(*right, target, dir, new_id, nid);
                let kk = a.len() + k;
                assert((a + b).insert(kk + 1, new_id) =~= a + b.insert(k + 1, new_id));
                assert((a + b)[kk] == target);
                assert forall|j: int| 0 <= j < kk implies (a + b)[j] != target by {
                    if j < a.len() {
                        assert((a + b)[j] == a[j]);
                    } else {
                        assert((a + b)[j] == b[j - a.len()]);
                    }
                }
                kk
            }
        },
    }
}

proof fn lemma_split_nodes(t: PaneTree, target: usize, dir: SplitDir, new_id: usize, nid: u32)
    ensures
        t.split_spec(target, dir, new_id, nid).1 ==> t.split_spec(target, dir, new_id, nid).0.node_set()
            == t.node_set().insert(nid),
        t.ids_distinct() && !t.node_set().contains(nid) ==> t.split_spec(
            target,
            dir,
            new_id,
            nid,
        ).0.ids_distinct(),
        t.ratios_in_range() ==> t.split_spec(target, dir, new_id, nid).0.ratios_in_range(),
    decreases t,
{
    lemma_split_unchanged(t, target, dir, new_id, nid);
    match t {
        PaneTree::Leaf { terminal_id } => {
            if terminal_id == target {
                let r = t.split_spec(target, dir, new_id, nid).0;
                let l = PaneTree::Leaf { terminal_id: target };
                let n = PaneTree::Leaf { terminal_id: new_id };
                assert(r == PaneTree::Split {
                    node_id: nid,
                    dir,
                    ratio: RATIO_HALF,
                    left: Box::new(l),
                    right: Box::new(n),
                });
                assert(l.node_set() == Set::<u32>::empty());
                assert(n.node_set() == Set::<u32>::empty());
                assert(l.ids_distinct() && n.ids_distinct());
                assert(l.ratios_in_range() && n.ratios_in_range());
                assert(r.node_set() =~= t.node_set().insert(nid));
            }
        },
        PaneTree::Split { node_id, dir: d, ratio, left, right } => {
            lemma_split_nodes(*left, target, dir, new_id, nid);
            lemma_split_nodes(*right, target, dir, new_id, nid);
            lemma_split_unchanged(*left, target, dir, new_id, nid);
            lemma_split_unchanged(*right, target, dir, new_id, nid);
            let (l2, ok) = left.split_spec(target, dir, new_id, nid);
            let (r2, ok2) = right.split_spec(target, dir, new_id, nid);
            let r = t.split_spec(target, dir, new_id, nid).0;
            if ok {
                assert(r == PaneTree::Split { node_id, dir: d, ratio, left: Box::new(l2), right });
                assert(r.node_set() =~= t.node_set().insert(nid));
                if t.ids_distinct() && !t.node_set().contains(nid) {
                    assert(!left.node_set().contains(nid));
                    assert(!right.node_set().contains(nid));
                    assert(l2.node_set() == left.node_set().insert(nid));
                    assert(forall|x: u32| !(l2.node_set().contains(x) && right.node_set().contains(x)));
                    assert(!l2.node_set().contains(node_id));
                }
            } else {
                assert(r == PaneTree::Split { node_id, dir: d, ratio, left, right: Box::new(r2) });
                if ok2 {
                    assert(r.node_set() =~= t.node_set().insert(nid));
                    if t.ids_distinct() && !t.node_set().contains(nid) {
                        assert(!left.node_set().contains(nid));
                        assert(!right.node_set().contains(nid));
                        assert(r2.node_set() == right.node_set().insert(nid));
                        assert(forall|x: u32| !(left.node_set().contains(x) && r2.node_set().contains(x)));
                        assert(!r2.node_set().contains(node_id));
                    }
                }
            }
        },
    }
}

/// Splitting finds the first leaf `target` (left to right), inserts
/// `new_id` right after it, adds exactly the split `nid`, and keeps split
/// ids distinct (given a fresh `nid`) and ratios in range.
pub proof fn lemma_split_spec(t: PaneTree, target: usize, dir: SplitDir, new_id: usize, nid: u32)
    ensures
        t.split_spec(target, dir, new_id, nid).1 == t.leaves().contains(target),
        !t.split_spec(target, dir, new_id, nid).1 ==> t.split_spec(target, dir, new_id, nid).0
            == t,
        t.split_spec(target, dir, new_id, nid).1 ==> exists|k: int|
            split_leaves_at(t, target, new_id, k) && #[trigger] t.leaves().insert(k + 1, new_id)
                == t.split_spec(target, dir, new_id, nid).0.leaves(),
        t.split_spec(target, dir, new_id, nid).1 ==> t.split_spec(target, dir, new_id, nid).0.node_set()
            == t.node_set().insert(nid),
        t.ids_distinct() && !t.node_set().contains(nid) ==> t.split_spec(
            target,
            dir,
            new_id,
            nid,
        ).0.ids_distinct(),
        t.ratios_in_range() ==> t.split_spec(target, dir, new_id, nid).0.ratios_in_range(),
{
    lemma_split_found(t, target, dir, new_id, nid);
    lemma_split_unchanged(t, target, dir, new_id, nid);
    lemma_split_nodes(t, target, dir, new_id, nid);
    if t.leaves().contains(target) {
        let k = lemma_split_leaves(t, target, dir, new_id, nid);
    }
}

proof fn lemma_concat_remove_left(a: Seq<usize>, b: Seq<usize>, k: int)
    requires
        0 <= k < a.len(),
    ensures
        (a + b).remove(k) == a.remove(k) + b,
{
    assert((a + b).remove(k) =~= a.remove(k) + b);
}

proof fn lemma_concat_remove_right(a: Seq<usize>, b: Seq<usize>, k: int)
    requires
        0 <= k < b.len(),
    ensures
        (a + b).remove(a.len() + k) == a + b.remove(k),
{
    assert((a + b).remove(a.len() + k) =~= a + b.remove(k));
}

/// Removing succeeds exactly on a split that holds leaf `target`; it then
/// drops one occurrence of `target` and nothing else from the leaves, drops
/// split ids only, and keeps split ids distinct and ratios in range.
pub proof fn lemma_remove_spec(t: PaneTree, target: usize)
    ensures
        t.remove_spec(target).1 == (t is Split && t.leaves().contains(target)),
        !t.remove_spec(target).1 ==> t.remove_spec(target).0 == t,
        t.remove_spec(target).1 ==> exists|k: int|
            0 <= k < t.leaves().len() && t.leaves()[k] == target && #[trigger] t.remove_spec(
                target,
            ).0.leaves() == t.leaves().remove(k),
        t.remove_spec(target).0.node_set().subset_of(t.node_set()),
        t.ids_distinct() ==> t.remove_spec(target).0.ids_distinct(),
        t.ratios_in_range() ==> t.remove_spec(target).0.ratios_in_range(),
    decreases t,
{
    lemma_remove_unchanged(t, target);
    match t {
        PaneTree::Leaf { .. } => {},
        PaneTree::Split { node_id, dir, ratio, left, right } => {
            let a = left.leaves();
            let b = right.leaves();
            lemma_concat_contains(a, b, target);
            lemma_leaves_nonempty(*left);
            lemma_leaves_nonempty(*right);
            if left.is_leaf_of(target) {
                assert(a[0] == target);
                assert(t.leaves().remove(0) =~= b);
                assert(t.leaves()[0] == target);
            } else if right.is_leaf_of(target) {
                assert(b[0] == target);
                assert(t.leaves().remove(a.len() as int) =~= a);
                assert(t.leaves()[a.len() as int] == target);
            } else {
                lemma_remove_spec(*left, target);
                lemma_remove_spec(*right, target);
                let (l2, ok) = left.remove_spec(target);
                let (r2, ok2) = right.remove_spec(target);
                if ok {
                    let k = choose|k: int|
                        0 <= k < a.len() && a[k] == target && #[trigger] left.remove_spec(
                            target,
                        ).0.leaves() == a.remove(k);
                    lemma_concat_remove_left(a, b, k);
                    assert((a + b)[k] == target);
                } else {
                    assert(left.is_leaf_of(target) == false);
                    if a.contains(target) {
                        // a leaf `target` inside `left`: `left` is a leaf (handled
                        // above) or a split, where removal succeeds
                        assert(left.remove_spec(target).1);
                    }
                    if ok2 {
                        let k = choose|k: int|
                            0 <= k < b.len() && b[k] == target && #[trigger] right.remove_spec(
                                target,
                            ).0.leaves() == b.remove(k);
                        lemma_concat_remove_right(a, b, k);
                        assert((a + b)[a.len() + k] == target);
                    } else {
                        if b.contains(target) {
                            assert(right.remove_spec(target).1);
                        }
                    }
                }
            }
        },
    }
}

/// Adjusting a ratio changes no leaf and no split id, keeps split ids
/// distinct and ratios in range.
pub proof fn lemma_adjust_spec(t: PaneTree, target: usize, tdir: SplitDir, delta: int)
    ensures
        t.adjust_spec(target, tdir, delta).0.leaves() == t.leaves(),
        t.adjust_spec(target, tdir, delta).0.node_set() == t.node_set(),
        t.ids_distinct() ==> t.adjust_spec(target, tdir, delta).0.ids_distinct(),
        t.ratios_in_range() ==> t.adjust_spec(target, tdir, delta).0.ratios_in_range(),
        t.adjust_spec(target, tdir, delta).1 ==> t.leaves().contains(target),
    decreases t,
{
    lemma_adjust_unchanged(t, target, tdir, delta);
    match t {
        PaneTree::Leaf { .. } => {},
        PaneTree::Split { left, right, .. } => {
            lemma_adjust_spec(*left, target, tdir, delta);
            lemma_adjust_spec(*right, target, tdir, delta);
            lemma_concat_contains(left.leaves(), right.leaves(), target);
        },
    }
}

/// Dragging a separator changes no leaf and no split id, keeps split ids
/// distinct and ratios in range.
pub proof fn lemma_drag_spec(t: PaneTree, target_id: u32, rx: int, ry: int)
    ensures
        t.drag_spec(target_id, rx, ry).0.leaves() == t.leaves(),
        t.drag_spec(target_id, rx, ry).0.node_set() == t.node_set(),
        t.ids_distinct() ==> t.drag_spec(target_id, rx, ry).0.ids_distinct(),
        t.ratios_in_range() ==> t.drag_spec(target_id, rx, ry).0.ratios_in_range(),
        t.drag_spec(target_id, rx, ry).1 == t.node_set().contains(target_id),
    decreases t,
{
    lemma_drag_unchanged(t, target_id, rx, ry);
    match t {
        PaneTree::Leaf { .. } => {},
        PaneTree::Split { left, right, .. } => {
            lemma_drag_spec(*left, target_id, rx, ry);
            lemma_drag_spec(*right, target_id, rx, ry);
        },
    }
}

} // verus!

verus! {

/// The split direction a focus direction resizes along.
pub open spec fn axis_of(dir: FocusDir) -> SplitDir {
    match dir {
        FocusDir::Left | FocusDir::Right => SplitDir::Horizontal,
        FocusDir::Up | FocusDir::Down => SplitDir::Vertical,
    }
}

/// The signed ratio change for a resize of `delta` towards `dir`: growing
/// the first child for Right/Down, shrinking it for Left/Up.
pub open spec fn signed_delta(dir: FocusDir, delta: int) -> int {
    match dir {
        FocusDir::Right | FocusDir::Down => delta,
        FocusDir::Left | FocusDir::Up => -delta,
    }
}

/// `new` is `old` with the same shape, leaves, split ids and directions,
/// where each split keeps its ratio or, if it runs along `axis`, moves it
/// by `step` (clamped to `[RATIO_MIN, RATIO_MAX]`).
pub open spec fn resized(old: PaneTree, new: PaneTree, axis: SplitDir, step: int) -> bool
    decreases old,
{
    match old {
        PaneTree::Leaf { terminal_id } => new == PaneTree::Leaf { terminal_id },
        PaneTree::Split { node_id, dir, ratio, left, right } => match new {
            PaneTree::Split { node_id: n2, dir: d2, ratio: r2, left: l2, right: q2 } => {
                &&& n2 == node_id
                &&& d2 == dir
                &&& (r2 == ratio || (dir == axis && r2 == clamp_ratio(ratio + step)))
                &&& resized(*left, *l2, axis, step)
                &&& resized(*right, *q2, axis, step)
            },
            PaneTree::Leaf { .. } => false,
        },
    }
}

proof fn lemma_adjust_resized(t: PaneTree, target: usize, tdir: SplitDir, delta: int)
    ensures
        resized(t, t.adjust_spec(target, tdir, delta).0, tdir, delta),
    decreases t,
{
    lemma_resized_refl(t, tdir, delta);
    match t {
        PaneTree::Leaf { .. } => {},
        PaneTree::Split { node_id, dir, ratio, left, right } => {
            lemma_adjust_resized(*left, target, tdir, delta);
            lemma_adjust_resized(*right, target, tdir, delta);
            lemma_resized_refl(*left, tdir, delta);
            lemma_resized_refl(*right, tdir, delta);
        },
    }
}

proof fn lemma_resized_refl(t: PaneTree, axis: SplitDir, step: int)
    ensures
        resized(t, t, axis, step),
    decreases t,
{
    match t {
        PaneTree::Leaf { .. } => {},
        PaneTree::Split { left, right, .. } => {
            lemma_resized_refl(*left, axis, step);
            lemma_resized_refl(*right, axis, step);
        },
    }
}

/// A keyboard resize moves split ratios the way it points: towards Down
/// only vertical splits change, each rising by `delta` (clamped); towards
/// Up they fall by `delta`; towards Right horizontal splits rise and
/// towards Left they fall. Nothing else in the tree changes, so Up and
/// Down (and Left and Right) move a split in opposite directions.
pub proof fn lemma_resize_direction(t: PaneTree, target: usize, dir: FocusDir, delta: u32)
    ensures
        dir == FocusDir::Down ==> resized(
            t,
            t.adjust_spec(target, axis_of(dir), signed_delta(dir, delta as int)).0,
            SplitDir::Vertical,
            delta as int,
        ),
        dir == FocusDir::Up ==> resized(
            t,
            t.adjust_spec(target, axis_of(dir), signed_delta(dir, delta as int)).0,
            SplitDir::Vertical,
            -(delta as int),
        ),
        dir == FocusDir::Right ==> resized(
            t,
            t.adjust_spec(target, axis_of(dir), signed_delta(dir, delta as int)).0,
            SplitDir::Horizontal,
            delta as int,
        ),
        dir == FocusDir::Left ==> resized(
            t,
            t.adjust_spec(target, axis_of(dir), signed_delta(dir, delta as int)).0,
            SplitDir::Horizontal,
            -(delta as int),
        ),
{
    lemma_adjust_resized(t, target, axis_of(dir), signed_delta(dir, delta as int));
}

/// On a vertical split of two panes, a resize towards Down from either
/// pane raises the ratio by `delta` and towards Up lowers it by `delta`,
/// each clamped to `[RATIO_MIN, RATIO_MAX]`.
pub proof fn lemma_resize_single_split(
    node_id: u32,
    ratio: u32,
    a: usize,
    b: usize,
    delta: u32,
    target: usize,
)
    requires
        target == a || target == b,
    ensures
        ({
            let t = PaneTree::Split {
                node_id,
                dir: SplitDir::Vertical,
                ratio,
                left: Box::new(PaneTree::Leaf { terminal_id: a }),
                right: Box::new(PaneTree::Leaf { terminal_id: b }),
            };
            let down = t.adjust_spec(target, axis_of(FocusDir::Down), signed_delta(FocusDir::Down, delta as int)).0;
            let up = t.adjust_spec(target, axis_of(FocusDir::Up), signed_delta(FocusDir::Up, delta as int)).0;
            &&& down->ratio == clamp_ratio(ratio + delta)
            &&& up->ratio == clamp_ratio(ratio - delta)
        }),
{
    let t = PaneTree::Split {
        node_id,
        dir: SplitDir::Vertical,
        ratio,
        left: Box::new(PaneTree::Leaf { terminal_id: a }),
        right: Box::new(PaneTree::Leaf { terminal_id: b }),
    };
    assert(PaneTree::Leaf { terminal_id: a }.leaves() == seq![a]);
    assert(PaneTree::Leaf { terminal_id: b }.leaves() == seq![b]);
    assert(seq![a][0] == a);
    assert(seq![b][0] == b);
    assert(seq![a].contains(a));
    assert(seq![b].contains(b));
    let la = PaneTree::Leaf { terminal_id: a };
    let lb = PaneTree::Leaf { terminal_id: b };
    assert(signed_delta(FocusDir::Down, delta as int) == delta as int);
    assert(signed_delta(FocusDir::Up, delta as int) == -(delta as int));
    assert(axis_of(FocusDir::Down) == SplitDir::Vertical);
    assert(axis_of(FocusDir::Up) == SplitDir::Vertical);
    assert(la.adjust_spec(target, SplitDir::Vertical, delta as int) == (la, false));
    assert(lb.adjust_spec(target, SplitDir::Vertical, delta as int) == (lb, false));
    assert(la.adjust_spec(target, SplitDir::Vertical, -(delta as int)) == (la, false));
    assert(lb.adjust_spec(target, SplitDir::Vertical, -(delta as int)) == (lb, false));
    assert(t.adjust_spec(target, SplitDir::Vertical, delta as int).0->ratio == clamp_ratio(ratio + delta));
    assert(t.adjust_spec(target, SplitDir::Vertical, -(delta as int)).0->ratio == clamp_ratio(ratio - delta));
}

/// Dragging the separator of a split sets its ratio to where the pointer
/// lies across the split's own axis: the horizontal position for a
/// left | right split, the vertical one for a top / bottom split, clamped
/// to `[RATIO_MIN, RATIO_MAX]`; its panes stay as they were.
pub proof fn lemma_drag_axis(
    node_id: u32,
    dir: SplitDir,
    ratio: u32,
    left: PaneTree,
    right: PaneTree,
    rx: int,
    ry: int,
)
    ensures
        ({
            let t = PaneTree::Split { node_id, dir, ratio, left: Box::new(left), right: Box::new(right) };
            let d = t.drag_spec(node_id, rx, ry);
            &&& d.1
            &&& dir == SplitDir::Horizontal ==> d.0->ratio == clamp_ratio(rx)
            &&& dir == SplitDir::Vertical ==> d.0->ratio == clamp_ratio(ry)
            &&& d.0->left == Box::new(left) && d.0->right == Box::new(right)
        }),
{
}

/// One tab's pane-split tree and its focused pane.
pub struct PaneForest {
    pub root: PaneTree,
    pub focused_terminal: usize,
    /// Id the next split will get; every split id in `root` is below it.
    pub next_node_id: u32,
}

impl PaneForest {
    /// The focused pane is a leaf, split ids are distinct and below the
    /// next id to hand out, and every ratio is in range.
    pub open spec fn wf(&self) -> bool {
        &&& self.root.leaves().contains(self.focused_terminal)
        &&& self.root.ids_distinct()
        &&& forall|x: u32| #[trigger] self.root.node_set().contains(x) ==> x < self.next_id()
        &&& self.root.ratios_in_range()
    }

    /// The id the next split will get.
    pub open spec fn next_id(&self) -> u32 {
        self.next_node_id
    }

    /// A single pane holding `terminal_id`, focused.
    pub fn new(terminal_id: usize) -> (r: Self)
        ensures
            r.wf(),
            r.root == (PaneTree::Leaf { terminal_id }),
            r.focused_terminal == terminal_id,
            r.next_node_id == 1,
    {
        let r = PaneForest {
            root: PaneTree::Leaf { terminal_id },
            focused_terminal: terminal_id,
            next_node_id: 1,
        };
        assert(r.root.leaves()[0] == terminal_id);
        r
    }

    /// Split the focused pane in direction `dir`, putting `new_id` after it
    /// (right or below) at one half, and focus `new_id`.
    pub fn split(&mut self, dir: SplitDir, new_id: usize)
        requires
            old(self).wf(),
            old(self).next_id() < u32::MAX,
        ensures
            final(self).wf(),
            final(self).focused_terminal == new_id,
            final(self).root == old(self).root.split_spec(
                old(self).focused_terminal,
                dir,
                new_id,
                old(self).next_id(),
            ).0,
            exists|k: int|
                split_leaves_at(old(self).root, old(self).focused_terminal, new_id, k)
                    && #[trigger] old(self).root.leaves().insert(k + 1, new_id)
                    == final(self).root.leaves(),
            final(self).root.node_set() == old(self).root.node_set().insert(old(self).next_id()),
            final(self).next_node_id == old(self).next_node_id + 1,
    {
        let focused = self.focused_terminal;
        let nid = self.next_node_id;
        let mut root = PaneTree::Leaf { terminal_id: 0 };
        std::mem::swap(&mut root, &mut self.root);
        proof {
            lemma_split_spec(root, focused, dir, new_id, nid);
        }
        let (r2, _found) = split_node(root, focused, dir, new_id, nid);
        self.root = r2;
        self.focused_terminal = new_id;
        self.next_node_id = nid + 1;
        proof {
            let k = choose|k: int|
                split_leaves_at(old(self).root, focused, new_id, k) && #[trigger] old(
                    self,
                ).root.leaves().insert(k + 1, new_id) == self.root.leaves();
            assert(self.root.leaves()[k + 1] == new_id);
        }
    }

    /// The first (leftmost) leaf.
    fn first_leaf(&self) -> (r: usize)
        ensures
            r == self.root.leaves()[0],
    {
        proof {
            lemma_leaves_nonempty(self.root);
        }
        let ids = self.root.leaf_ids();
        ids[0]
    }

    /// Close the focused pane, focusing the leftmost remaining one, and
    /// return its id; `None` (nothing changes) when it is the last pane.
    pub fn close_focused(&mut self) -> (r: Option<usize>)
        requires
            old(self).wf(),
        ensures
            final(self).wf(),
            r is None <==> old(self).root.leaves().len() <= 1,
            final(self).next_node_id == old(self).next_node_id,
            r is None ==> *final(self) == *old(self),
            r is Some ==> {
                &&& r == Some(old(self).focused_terminal)
                &&& exists|k: int|
                    0 <= k < old(self).root.leaves().len() && old(self).root.leaves()[k]
                        == old(self).focused_terminal && #[trigger] old(self).root.leaves().remove(
                        k,
                    ) == final(self).root.leaves()
                &&& final(self).focused_terminal == final(self).root.leaves()[0]
                &&& final(self).root == old(self).root.remove_spec(old(self).focused_terminal).0
            },
    {
        let closed = self.focused_terminal;
        proof {
            lemma_leaves_nonempty(self.root);
            lemma_remove_spec(self.root, closed);
        }
        if self.root.is_leaf() {
            assert(self.root.leaves() =~= seq![self.root->terminal_id]);
            return None;
        }
        let mut root = PaneTree::Leaf { terminal_id: 0 };
        std::mem::swap(&mut root, &mut self.root);
        let (r2, _removed) = remove_leaf(root, closed);
        self.root = r2;
        self.focused_terminal = self.first_leaf();
        proof {
            lemma_leaves_nonempty(self.root);
            assert(self.root.leaves().contains(self.root.leaves()[0]));
            assert forall|x: u32| #[trigger] self.root.node_set().contains(x) implies x
                < self.next_id() by {
                assert(old(self).root.node_set().contains(x));
            }
        }
        Some(closed)
    }

    /// Close the pane `terminal_id` (e.g. after its shell exits), moving
    /// focus to the leftmost pane if it was focused. Returns false and
    /// changes nothing when it is the only pane or not in this tree.
    pub fn close_specific(&mut self, terminal_id: usize) -> (r: bool)
        requires
            old(self).wf(),
        ensures
            final(self).wf(),
            r == (old(self).root.leaves().len() > 1 && old(self).root.leaves().contains(
                terminal_id,
            )),
            !r ==> *final(self) == *old(self),
            final(self).next_node_id == old(self).next_node_id,
            r ==> {
                &&& exists|k: int|
                    0 <= k < old(self).root.leaves().len() && old(self).root.leaves()[k]
                        == terminal_id && #[trigger] old(self).root.leaves().remove(k)
                        == final(self).root.leaves()
                &&& final(self).focused_terminal == (if old(self).focused_terminal == terminal_id {
                    final(self).root.leaves()[0]
                } else {
                    old(self).focused_terminal
                })
                &&& final(self).root == old(self).root.remove_spec(terminal_id).0
            },
    {
        proof {
            lemma_leaves_nonempty(self.root);
            lemma_remove_spec(self.root, terminal_id);
        }
        if self.root.is_leaf() {
            assert(self.root.leaves() =~= seq![self.root->terminal_id]);
            return false;
        }
        let mut root = PaneTree::Leaf { terminal_id: 0 };
        std::mem::swap(&mut root, &mut self.root);
        let (r2, removed) = remove_leaf(root, terminal_id);
        self.root = r2;
        if !removed {
            return false;
        }
        if self.focused_terminal == terminal_id {
            self.focused_terminal = self.first_leaf();
        }
        proof {
            lemma_leaves_nonempty(self.root);
            let old_leaves = old(self).root.leaves();
            let k = choose|k: int|
                0 <= k < old_leaves.len() && old_leaves[k] == terminal_id
                    && #[trigger] old_leaves.remove(k) == self.root.leaves();
            if old(self).focused_terminal != terminal_id {
                let f = old(self).focused_terminal;
                let i = choose|i: int| 0 <= i < old_leaves.len() && old_leaves[i] == f;
                if i < k {
                    assert(self.root.leaves()[i] == f);
                } else {
                    assert(self.root.leaves()[i - 1] == f);
                }
            } else {
                assert(self.root.leaves().contains(self.root.leaves()[0]));
            }
            assert forall|x: u32| #[trigger] self.root.node_set().contains(x) implies x
                < self.next_id() by {
                assert(old(self).root.node_set().contains(x));
            }
        }
        true
    }

    /// Resize: move the ratio of the deepest split on the focused pane's
    /// path whose axis matches `dir` by `delta` ten-thousandths towards
    /// `dir`, clamped to `[RATIO_MIN, RATIO_MAX]`.
    pub fn adjust_ratio(&mut self, dir: FocusDir, delta: u32)
        requires
            old(self).wf(),
        ensures
            final(self).wf(),
            final(self).focused_terminal == old(self).focused_terminal,
            final(self).root == old(self).root.adjust_spec(
                old(self).focused_terminal,
                axis_of(dir),
                signed_delta(dir, delta as int),
            ).0,
            final(self).root.leaves() == old(self).root.leaves(),
            final(self).next_node_id == old(self).next_node_id,
    {
        let target_dir = match dir {
            FocusDir::Left | FocusDir::Right => SplitDir::Horizontal,
            FocusDir::Up | FocusDir::Down => SplitDir::Vertical,
        };
        let signed: i64 = match dir {
            FocusDir::Right | FocusDir::Down => delta as i64,
            FocusDir::Left | FocusDir::Up => -(delta as i64),
        };
        let focused = self.focused_terminal;
        let mut root = PaneTree::Leaf { terminal_id: 0 };
        std::mem::swap(&mut root, &mut self.root);
        proof {
            lemma_adjust_spec(root, focused, target_dir, signed as int);
        }
        let (r2, _found) = adjust_parent_split(root, focused, target_dir, signed);
        self.root = r2;
    }

    /// Drag the separator of split `node_id` to the pointer: `ratio_x` and
    /// `ratio_y` are the pointer's position across the split's container
    /// along each axis, in ten-thousandths; the split takes the one of its
    /// own axis, clamped to `[RATIO_MIN, RATIO_MAX]`. No effect for an
    /// unknown id.
    pub fn drag_separator(&mut self, node_id: u32, ratio_x: i64, ratio_y: i64)
        requires
            old(self).wf(),
        ensures
            final(self).wf(),
            final(self).focused_terminal == old(self).focused_terminal,
            final(self).root == old(self).root.drag_spec(node_id, ratio_x as int, ratio_y as int).0,
            final(self).root.leaves() == old(self).root.leaves(),
            final(self).next_node_id == old(self).next_node_id,
    {
        let mut root = PaneTree::Leaf { terminal_id: 0 };
        std::mem::swap(&mut root, &mut self.root);
        proof {
            lemma_drag_spec(root, node_id, ratio_x as int, ratio_y as int);
        }
        let (r2, _found) = drag_split_ratio(root, node_id, ratio_x, ratio_y);
        self.root = r2;
    }
}

} // verus!
