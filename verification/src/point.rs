//! Chain points: a position on the chain, either the origin sentinel or a
//! specific block identified by its slot and its 32-byte header hash.

use vstd::prelude::*;

verus! {

/// Mathematical value of a [`Point`]: the hash is a sequence of bytes.
pub enum PointView {
    Origin,
    Specific(u64, Seq<u8>),
}

impl PointView {
    /// Slot number used for ordering; the origin precedes every block and
    /// carries slot 0 by convention.
    pub open spec fn slot(self) -> u64 {
        match self {
            PointView::Origin => 0,
            PointView::Specific(slot, _) => slot,
        }
    }

}

/// A position on the chain.
#[derive(Debug, PartialEq, Eq)]
pub enum Point {
    /// The sentinel preceding all blocks.
    Origin,
    /// A block at a slot, identified by its header hash.
    Specific(u64, Vec<u8>),
}

impl View for Point {
    type V = PointView;

    open spec fn view(&self) -> PointView {
        match self {
            Point::Origin => PointView::Origin,
            Point::Specific(slot, hash) => PointView::Specific(*slot, hash@),
        }
    }
}

impl Point {
    /// Well-formed points carry a 32-byte hash.
    pub open spec fn wf(&self) -> bool {
        self@ matches PointView::Specific(_, h) ==> h.len() == 32
    }

    /// Slot number, or 0 for the origin.
    pub fn slot_or_default(&self) -> (r: u64)
        ensures
            r == self@.slot(),
    {
        match self {
            Point::Origin => 0,
            Point::Specific(slot, _) => *slot,
        }
    }
}

impl Clone for Point {
    fn clone(&self) -> (r: Self)
        ensures
            r@ == self@,
    {
        match self {
            Point::Origin => Point::Origin,
            Point::Specific(slot, hash) => {
                let h = hash.clone();
                proof {
                    assert(h@ =~= hash@);
                }
                Point::Specific(*slot, h)
            },
        }
    }
}

} // verus!
