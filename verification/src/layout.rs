//! Tab-level decisions about panes: which tab holds a terminal, what
//! closing a tab's last pane amounts to, and the zoomed pane.

use vstd::prelude::*;
use crate::panes::{contains_leaf, PaneForest, PaneTree};

verus! {

/// The first tab whose pane tree holds terminal `terminal_id`.
pub fn locate_terminal(tabs: &[PaneForest], terminal_id: usize) -> (r: Option<usize>)
    ensures
        match r {
            Some(i) => i < tabs@.len() && tabs@[i as int].root.leaves().contains(terminal_id) && forall|j: int|
                0 <= j < i ==> !(#[trigger] tabs@[j]).root.leaves().contains(terminal_id),
            None => forall|j: int| 0 <= j < tabs@.len() ==> !(#[trigger] tabs@[j]).root.leaves().contains(terminal_id),
        },
{
    let mut i: usize = 0;
    while i < tabs.len()
        invariant
            i <= tabs@.len(),
            forall|j: int| 0 <= j < i ==> !(#[trigger] tabs@[j]).root.leaves().contains(terminal_id),
        decreases tabs@.len() - i,
    {
        if contains_leaf(&tabs[i].root, terminal_id) {
            return Some(i);
        }
        i = i + 1;
    }
    None
}

/// What closing a tab comes to.
#[derive(Debug, Clone, Copy, PartialEq, Eq, Structural)]
pub enum ClosePlan {
    /// Remove the tab from its workspace.
    CloseTab,
    /// It is the workspace's last tab: remove the whole workspace.
    CloseWorkspace,
    /// It is the last tab of the last workspace: quit the application.
    Quit,
}

/// A workspace cannot be left without tabs, nor the application without
/// workspaces.
pub fn close_plan(tab_count: usize, workspace_count: usize) -> (r: ClosePlan)
    ensures
        r == (if tab_count > 1 {
            ClosePlan::CloseTab
        } else if workspace_count > 1 {
            ClosePlan::CloseWorkspace
        } else {
            ClosePlan::Quit
        }),
{
    if tab_count <= 1 {
        if workspace_count <= 1 {
            ClosePlan::Quit
        } else {
            ClosePlan::CloseWorkspace
        }
    } else {
        ClosePlan::CloseTab
    }
}

/// The zoomed pane after toggling zoom on the focused pane: unzoom when
/// it is the zoomed one, zoom it when the tab has more than one pane,
/// otherwise nothing is zoomed.
pub open spec fn zoom_spec(zoomed: Option<usize>, focused: usize, leaf_count: usize) -> Option<usize> {
    if zoomed == Some(focused) {
        None
    } else if leaf_count > 1 {
        Some(focused)
    } else {
        None
    }
}

/// Toggle zoom on the focused pane.
pub fn next_zoom(zoomed: Option<usize>, focused: usize, leaf_count: usize) -> (r: Option<usize>)
    ensures
        r == zoom_spec(zoomed, focused, leaf_count),
{
    match zoomed {
        Some(id) => {
            if id == focused {
                return None;
            }
        },
        None => {},
    }
    if leaf_count > 1 {
        Some(focused)
    } else {
        None
    }
}

/// The zoomed pane after terminal `gone` was removed: a removed pane is no
/// longer zoomed.
pub fn zoom_after_removal(zoomed: Option<usize>, gone: usize) -> (r: Option<usize>)
    ensures
        r == (if zoomed == Some(gone) { None::<usize> } else { zoomed }),
{
    match zoomed {
        Some(id) => {
            if id == gone {
                None
            } else {
                Some(id)
            }
        },
        None => None,
    }
}

/// The zoom to draw the active tab with: a zoomed pane that is not in the
/// tab's tree (the tab changed, or the pane closed) is dropped.
pub fn zoom_in_tab(zoomed: Option<usize>, tree: &PaneTree) -> (r: Option<usize>)
    ensures
        r == (match zoomed {
            Some(id) => if tree.leaves().contains(id) {
                Some(id)
            } else {
                None::<usize>
            },
            None => None::<usize>,
        }),
{
    match zoomed {
        Some(id) => {
            if contains_leaf(tree, id) {
                Some(id)
            } else {
                None
            }
        },
        None => None,
    }
}

/// On a tab with several panes, toggling zoom twice on the same pane
/// zooms it and then restores the unzoomed layout; a single pane is never
/// zoomed.
pub proof fn lemma_zoom_toggles(focused: usize, leaf_count: usize)
    ensures
        leaf_count > 1 ==> zoom_spec(None, focused, leaf_count) == Some(focused),
        leaf_count > 1 ==> zoom_spec(zoom_spec(None, focused, leaf_count), focused, leaf_count) is None,
        leaf_count <= 1 ==> forall|z: Option<usize>| #[trigger] zoom_spec(z, focused, leaf_count) is None,
{
}

} // verus!
