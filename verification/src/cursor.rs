//! The per-peer cursor: a rolling window of the most recently observed
//! chain points, most recent at the front, at most [`CURSOR_BACKLOG`] long.

use vstd::prelude::*;
use std::collections::VecDeque;
use crate::point::{Point, PointView};

verus! {

/// Upper bound on how many points the cursor keeps.
pub const CURSOR_BACKLOG: usize = 20;

/// A chain point in the form the cursor stores and persists: a slot number
/// and a 32-byte hash.  The origin is stored as slot 0 with a zero hash.
#[derive(Debug, PartialEq, Eq)]
pub struct SerializablePoint {
    pub slot: u64,
    pub hash: Vec<u8>,
}

impl View for SerializablePoint {
    type V = (u64, Seq<u8>);

    open spec fn view(&self) -> (u64, Seq<u8>) {
        (self.slot, self.hash@)
    }
}

impl SerializablePoint {
    /// The stored hash is exactly 32 bytes.
    pub open spec fn wf(&self) -> bool {
        self.hash@.len() == 32
    }

    /// How a point is stored: the origin becomes slot 0 with a zero hash.
    pub open spec fn spec_from_point(p: PointView) -> (u64, Seq<u8>) {
        match p {
            PointView::Origin => (0u64, Seq::new(32, |_i: int| 0u8)),
            PointView::Specific(slot, hash) => (slot, hash),
        }
    }

    /// How a stored record is read back: slot 0 is taken as the origin.
    pub open spec fn spec_into_point(r: (u64, Seq<u8>)) -> PointView {
        if r.0 == 0 {
            PointView::Origin
        } else {
            PointView::Specific(r.0, r.1)
        }
    }

    /// Store a point.
    pub fn from(value: Point) -> (r: SerializablePoint)
        requires
            value.wf(),
        ensures
            r@ == Self::spec_from_point(value@),
            r.wf(),
    {
        match value {
            Point::Origin => {
                let hash: Vec<u8> = vec![0u8; 32];
                proof {
                    assert(hash@ =~= Seq::new(32, |_i: int| 0u8));
                }
                SerializablePoint { slot: 0, hash }
            },
            Point::Specific(slot, hash) => SerializablePoint { slot, hash },
        }
    }

    /// Read the stored record back as a point.
    pub fn into(self) -> (r: Point)
        ensures
            r@ == Self::spec_into_point(self@),
    {
        if self.slot == 0 {
            Point::Origin
        } else {
            Point::Specific(self.slot, self.hash)
        }
    }
}

impl Clone for SerializablePoint {
    fn clone(&self) -> (r: Self)
        ensures
            r@ == self@,
    {
        let hash = self.hash.clone();
        proof {
            assert(hash@ =~= self.hash@);
        }
        SerializablePoint { slot: self.slot, hash }
    }
}

/// The rolling window of recent points, most recent first.
#[derive(Debug, PartialEq, Eq)]
pub struct Cursor {
    pub points: VecDeque<SerializablePoint>,
}

impl View for Cursor {
    type V = Seq<(u64, Seq<u8>)>;

    open spec fn view(&self) -> Seq<(u64, Seq<u8>)> {
        self.points@.map_values(|sp: SerializablePoint| sp@)
    }
}

impl Cursor {
    /// The window never exceeds [`CURSOR_BACKLOG`] points and every stored
    /// hash is 32 bytes.
    pub open spec fn wf(&self) -> bool {
        &&& self@.len() <= CURSOR_BACKLOG
        &&& forall|i: int| 0 <= i < self@.len() ==> (#[trigger] self@[i]).1.len() == 32
    }

    /// Slots are strictly decreasing from front to back: no duplicates and
    /// no out-of-order entries.
    pub open spec fn descending(s: Seq<(u64, Seq<u8>)>) -> bool {
        forall|i: int, j: int| 0 <= i < j < s.len() ==> (#[trigger] s[i]).0 > (#[trigger] s[j]).0
    }

    /// An empty cursor.
    pub fn new() -> (r: Cursor)
        ensures
            r@.len() == 0,
            r.wf(),
    {
        Cursor { points: VecDeque::new() }
    }

    /// A cursor seeded with a single point.
    pub fn from_point(value: Point) -> (r: Cursor)
        requires
            value.wf(),
        ensures
            r@.len() == 1,
            r@[0] == SerializablePoint::spec_from_point(value@),
            r.wf(),
    {
        let mut points: VecDeque<SerializablePoint> = VecDeque::new();
        points.push_front(SerializablePoint::from(value));
        Cursor { points }
    }

    /// Prepend a point, dropping the oldest entry once the window is full.
    /// The front of the window is always the point just added.
    pub fn add_point(&mut self, value: Point)
        requires
            old(self).wf(),
            value.wf(),
        ensures
            final(self).wf(),
            final(self)@.len()
                == if old(self)@.len() < CURSOR_BACKLOG { (old(self)@.len() + 1) as nat } else { 20nat },
            final(self)@[0] == SerializablePoint::spec_from_point(value@),
            forall|i: int| 1 <= i < final(self)@.len() ==> final(self)@[i] == old(self)@[i - 1],
    {
        self.points.push_front(SerializablePoint::from(value));
        if self.points.len() > CURSOR_BACKLOG {
            self.points.pop_back();
        }
        proof {
            assert forall|i: int| 0 <= i < self@.len() implies
                (#[trigger] self@[i]).1.len() == 32 by {
                if i >= 1 {
                    assert(old(self)@[i - 1].1.len() == 32);
                }
            }
        }
    }

    /// All stored points, most recent first, read back as points.
    pub fn to_points(&self) -> (r: Vec<Point>)
        ensures
            r@.len() == self@.len(),
            forall|i: int| 0 <= i < r@.len()
                ==> (#[trigger] r@[i])@ == SerializablePoint::spec_into_point(self@[i]),
    {
        let mut r: Vec<Point> = Vec::new();
        let n = self.points.len();
        for k in 0..n
            invariant
                n == self@.len(),
                r@.len() == k,
                forall|i: int| 0 <= i < k
                    ==> (#[trigger] r@[i])@ == SerializablePoint::spec_into_point(self@[i]),
        {
            let sp = self.points[k].clone();
            r.push(sp.into());
        }
        r
    }

    /// Length bound and strict slot order are kept by `add_point` whenever
    /// points are pushed in ascending slot order, which is how the body
    /// fetcher drives the cursor.
    pub proof fn lemma_add_point_keeps_descending(
        pre: Seq<(u64, Seq<u8>)>,
        post: Seq<(u64, Seq<u8>)>,
        p: PointView,
    )
        requires
            Self::descending(pre),
            pre.len() > 0 ==> SerializablePoint::spec_from_point(p).0 > pre[0].0,
            post.len() == if pre.len() < CURSOR_BACKLOG { (pre.len() + 1) as nat } else { 20nat },
            pre.len() <= CURSOR_BACKLOG,
            post[0] == SerializablePoint::spec_from_point(p),
            forall|i: int| 1 <= i < post.len() ==> post[i] == pre[i - 1],
        ensures
            Self::descending(post),
    {
        assert forall|i: int, j: int| 0 <= i < j < post.len() implies
            (#[trigger] post[i]).0 > (#[trigger] post[j]).0 by {
            if i == 0 {
                if j > 1 {
                    assert(pre[0].0 > pre[j - 1].0);
                }
            } else {
                assert(pre[i - 1].0 > pre[j - 1].0);
            }
        }
    }
}

} // verus!
