//! The node list of the map view: which entry is selected and how the
//! selection moves.  The index is held as a plain value; the UI
//! toolkit's own list state mirrors it outside the library.

use vstd::prelude::*;

verus! {

/// The selectable list of node identifiers.
#[derive(Clone, PartialEq, Eq, Debug)]
pub struct NodeIdList {
    /// Index of the selected entry, if one is selected.
    pub selected: Option<usize>,
    pub node_id: Vec<String>,
}

impl NodeIdList {
    /// A new list with nothing selected.
    pub fn new(node_id: Vec<String>) -> (r: NodeIdList)
        ensures
            r.selected is None,
            r.node_id@ == node_id@,
    {
        NodeIdList { selected: None, node_id }
    }

    /// Moves the selection one entry down, wrapping to the top; with
    /// no selection it starts at the top.
    pub fn next(&mut self)
        requires
            old(self).selected is Some ==> old(self).node_id@.len() > 0,
        ensures
            final(self).node_id@ == old(self).node_id@,
            final(self).selected == (match old(self).selected {
                Some(i) => if i + 1 >= old(self).node_id@.len() {
                    Some(0usize)
                } else {
                    Some((i + 1) as usize)
                },
                None => Some(0usize),
            }),
    {
        let i: usize = match self.selected {
            Some(i) => {
                if i >= self.node_id.len() - 1 {
                    0
                } else {
                    i + 1
                }
            },
            None => 0,
        };
        self.selected = Some(i);
    }

    /// Moves the selection one entry up, wrapping to the bottom; with
    /// no selection it starts at the top.
    pub fn previous(&mut self)
        requires
            old(self).selected is Some ==> old(self).node_id@.len() > 0,
        ensures
            final(self).node_id@ == old(self).node_id@,
            final(self).selected == (match old(self).selected {
                Some(i) => if i == 0 {
                    Some((old(self).node_id@.len() - 1) as usize)
                } else {
                    Some((i - 1) as usize)
                },
                None => Some(0usize),
            }),
    {
        let i: usize = match self.selected {
            Some(i) => {
                if i == 0 {
                    self.node_id.len() - 1
                } else {
                    i - 1
                }
            },
            None => 0,
        };
        self.selected = Some(i);
    }

    /// Clears the selection.
    pub fn unselect(&mut self)
        ensures
            final(self).node_id@ == old(self).node_id@,
            final(self).selected is None,
    {
        self.selected = None;
    }
}

} // verus!
