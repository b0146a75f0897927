//! Where a cluster lies in its chain: the hint that lets a scan resume.

use vstd::prelude::*;

verus! {

/// A cluster and its place in its chain.
#[derive(Clone, Copy, Debug)]
pub struct ClusterHint {
    /// The absolute cluster index, never zero.
    pub index: u32,
    /// The cluster index within the chain.
    pub offset: u32,
}

impl ClusterHint {
    /// The invariant of a hint: its cluster index is not zero.
    pub open spec fn wf(&self) -> bool {
        self.index != 0
    }

    /// The hint for cluster `index`, which is number `offset` of its chain;
    /// `None` for the cluster index zero.
    pub fn new(index: u32, offset: u32) -> (r: Option<Self>)
        ensures
            index != 0 ==> r == Some(ClusterHint { index, offset }),
            index == 0 ==> r is None,
    {
        if index == 0 {
            None
        } else {
            Some(ClusterHint { index, offset })
        }
    }
}

} // verus!
