//! The heuristic batcher: turns the stream of chain-follow events into
//! bounded `(from, to)` body-fetch ranges.  During bulk sync it groups
//! `batch_size` consecutive headers into one range; a rollback first
//! flushes the in-flight range so no written header loses its body; once
//! the tip is reached the in-flight range is flushed and the batch size
//! drops to one, so every header is fetched without waiting for a batch
//! to fill: at the tip latency matters more than throughput.

use vstd::prelude::*;
use crate::point::{Point, PointView};

verus! {

/// An event of the chain-follow protocol, as the batcher sees it.
#[derive(Debug)]
pub enum ChainEvent {
    /// The chain grew by one header at this point.
    RollForward(Point),
    /// The chain was rolled back to this point.
    RollBackward(Point),
    /// The tip was reached; the server will push further headers.
    Await,
}

/// Mathematical value of a [`ChainEvent`].
pub enum ChainEventView {
    RollForward(PointView),
    RollBackward(PointView),
    Await,
}

impl View for ChainEvent {
    type V = ChainEventView;

    open spec fn view(&self) -> ChainEventView {
        match self {
            ChainEvent::RollForward(p) => ChainEventView::RollForward(p@),
            ChainEvent::RollBackward(p) => ChainEventView::RollBackward(p@),
            ChainEvent::Await => ChainEventView::Await,
        }
    }
}

impl ChainEvent {
    /// Any point carried by the event has a 32-byte hash.
    pub open spec fn wf(&self) -> bool {
        match self {
            ChainEvent::RollForward(p) => p.wf(),
            ChainEvent::RollBackward(p) => p.wf(),
            ChainEvent::Await => true,
        }
    }
}

/// Mathematical state of the [`Batcher`].
pub struct BatcherView {
    /// First header of the currently open batch, if one is open.
    pub start: Option<PointView>,
    /// Most recent header seen since the last reset.
    pub prev: Option<PointView>,
    /// Number of headers in the open batch.
    pub count: u32,
    /// Headers per emitted range; drops to 1 at the tip.
    pub batch_size: u8,
}

impl BatcherView {
    /// The state the batcher can actually be in.
    pub open spec fn wf(self) -> bool {
        &&& self.batch_size >= 1
        &&& self.count <= 255
        &&& (self.start is Some <==> self.count >= 1)
        &&& (self.start matches Some(s) ==> self.prev matches Some(p) && s.slot() <= p.slot())
    }
}

/// One step of the batcher: the new state and the range emitted, if any.
pub open spec fn spec_step(b: BatcherView, e: ChainEventView) -> (BatcherView, Option<
    (PointView, PointView),
>) {
    match e {
        ChainEventView::RollForward(p) => {
            let s = match b.start {
                Some(s0) => s0,
                None => p,
            };
            let c = if b.start is Some {
                b.count + 1
            } else {
                1int
            };
            if c >= b.batch_size {
                (
                    BatcherView { start: None, prev: Some(p), count: 0, batch_size: b.batch_size },
                    Some((s, p)),
                )
            } else {
                (
                    BatcherView {
                        start: Some(s),
                        prev: Some(p),
                        count: c as u32,
                        batch_size: b.batch_size,
                    },
                    None,
                )
            }
        },
        ChainEventView::RollBackward(_) => {
            let emitted = match (b.start, b.prev) {
                (Some(s), Some(pv)) => Some((s, pv)),
                _ => Option::<(PointView, PointView)>::None,
            };
            (
                BatcherView { start: None, prev: b.prev, count: 0, batch_size: b.batch_size },
                emitted,
            )
        },
        ChainEventView::Await => {
            let emitted = match (b.start, b.prev) {
                (Some(s), Some(pv)) => Some((s, pv)),
                _ => Option::<(PointView, PointView)>::None,
            };
            (BatcherView { start: None, prev: b.prev, count: 0, batch_size: 1 }, emitted)
        },
    }
}

/// The ranges a sequence of events makes the batcher emit, in order,
/// together with the state it reaches.
pub open spec fn spec_run(b: BatcherView, events: Seq<ChainEventView>) -> (BatcherView, Seq<
    (PointView, PointView),
>)
    decreases events.len(),
{
    if events.len() == 0 {
        (b, Seq::empty())
    } else {
        let (b1, em) = spec_step(b, events[0]);
        let head = match em {
            Some(r) => seq![r],
            None => Seq::empty(),
        };
        let (b2, rest) = spec_run(b1, events.subrange(1, events.len() as int));
        (b2, head + rest)
    }
}

/// The per-peer batcher state.
pub struct Batcher {
    pub start: Option<Point>,
    pub prev: Option<Point>,
    pub count: u32,
    pub batch_size: u8,
}

impl View for Batcher {
    type V = BatcherView;

    open spec fn view(&self) -> BatcherView {
        BatcherView {
            start: match self.start {
                Some(ref p) => Some(p@),
                None => None,
            },
            prev: match self.prev {
                Some(ref p) => Some(p@),
                None => None,
            },
            count: self.count,
            batch_size: self.batch_size,
        }
    }
}

impl Batcher {
    /// Valid state with well-formed stored points.
    pub open spec fn wf(&self) -> bool {
        &&& self@.wf()
        &&& (self.start matches Some(p) ==> p.wf())
        &&& (self.prev matches Some(p) ==> p.wf())
    }

    /// A fresh batcher that groups `batch_size` headers per range.
    pub fn new(batch_size: u8) -> (r: Batcher)
        requires
            batch_size >= 1,
        ensures
            r.wf(),
            r@ == (BatcherView { start: None, prev: None, count: 0, batch_size }),
    {
        Batcher { start: None, prev: None, count: 0, batch_size }
    }

    /// Feed one chain-follow event; at most one range is emitted per event.
    ///
    /// Every emitted range runs forward: its `from` slot never exceeds its
    /// `to` slot.
    pub fn step(&mut self, event: ChainEvent) -> (emitted: Option<(Point, Point)>)
        requires
            old(self).wf(),
            event.wf(),
            event matches ChainEvent::RollForward(p) ==> (old(self)@.start is Some ==> (old(
                self,
            )@.prev matches Some(pv) && p@.slot() >= pv.slot())),
        ensures
            final(self).wf(),
            final(self)@ == spec_step(old(self)@, event@).0,
            match (emitted, spec_step(old(self)@, event@).1) {
                (Some(r), Some(m)) => r.0@ == m.0 && r.1@ == m.1 && r.0.wf() && r.1.wf(),
                (None, None) => true,
                _ => false,
            },
            emitted matches Some(r) ==> r.0@.slot() <= r.1@.slot(),
    {
        match event {
            ChainEvent::RollForward(p) => {
                let s: Point = match &self.start {
                    Some(s0) => s0.clone(),
                    None => p.clone(),
                };
                let c: u32 = if self.start.is_some() {
                    self.count + 1
                } else {
                    1
                };
                self.prev = Some(p.clone());
                if c >= self.batch_size as u32 {
                    self.start = None;
                    self.count = 0;
                    Some((s, p))
                } else {
                    self.start = Some(s);
                    self.count = c;
                    None
                }
            },
            ChainEvent::RollBackward(_) => {
                let emitted = match (&self.start, &self.prev) {
                    (Some(s), Some(pv)) => Some((s.clone(), pv.clone())),
                    _ => None,
                };
                self.start = None;
                self.count = 0;
                emitted
            },
            ChainEvent::Await => {
                let emitted = match (&self.start, &self.prev) {
                    (Some(s), Some(pv)) => Some((s.clone(), pv.clone())),
                    _ => None,
                };
                self.start = None;
                self.count = 0;
                self.batch_size = 1;
                emitted
            },
        }
    }
}

/// Flushing rule: a rollback closes any open batch, and from then until the
/// next `RollForward` no further range is emitted.  Ranges that were emitted
/// before the rollback are unaffected: the in-flight range is flushed by the
/// rollback step itself.
pub proof fn lemma_quiet_after_rollback(b: BatcherView, events: Seq<ChainEventView>)
    requires
        b.start is None,
        forall|i: int| 0 <= i < events.len() ==> !((#[trigger] events[i]) is RollForward),
    ensures
        spec_run(b, events).1 =~= Seq::<(PointView, PointView)>::empty(),
        spec_run(b, events).0.start is None,
    decreases events.len(),
{
    if events.len() > 0 {
        let (b1, em) = spec_step(b, events[0]);
        assert(em is None);
        assert(b1.start is None);
        lemma_quiet_after_rollback(b1, events.subrange(1, events.len() as int));
    }
}

/// A rollback always leaves the batcher with no open batch.
pub proof fn lemma_rollback_clears(b: BatcherView, r: PointView)
    ensures
        spec_step(b, ChainEventView::RollBackward(r)).0.start is None,
        spec_step(b, ChainEventView::RollBackward(r)).0.count == 0,
{
}

/// Between a rollback and the next `RollForward`, nothing is emitted:
/// the rollback step itself flushes the in-flight range, leaves no open
/// batch, and no event other than a `RollForward` can open one.  Any
/// range whose points lie past the rollback was therefore emitted before
/// the rollback event.
pub proof fn lemma_quiet_between_rollback_and_forward(
    b: BatcherView,
    r: PointView,
    events: Seq<ChainEventView>,
)
    requires
        forall|i: int| 0 <= i < events.len() ==> !((#[trigger] events[i]) is RollForward),
    ensures
        spec_run(spec_step(b, ChainEventView::RollBackward(r)).0, events).1 =~= Seq::<
            (PointView, PointView),
        >::empty(),
{
    lemma_rollback_clears(b, r);
    lemma_quiet_after_rollback(spec_step(b, ChainEventView::RollBackward(r)).0, events);
}

/// At the tip (batch size 1), every header produces exactly one range.
pub proof fn lemma_one_range_per_header_at_tip(b: BatcherView, p: PointView)
    requires
        b.wf(),
        b.batch_size == 1,
    ensures
        spec_step(b, ChainEventView::RollForward(p)).1 is Some,
{
}

/// Running the batcher over concatenated event streams equals running it
/// over the first stream and continuing, from the state reached, over the
/// second: the emitted ranges concatenate.  A restart that resumes from the
/// persisted state therefore emits the same ranges as an uninterrupted run.
pub proof fn lemma_run_append(b: BatcherView, e1: Seq<ChainEventView>, e2: Seq<ChainEventView>)
    ensures
        spec_run(b, e1 + e2).0 == spec_run(spec_run(b, e1).0, e2).0,
        spec_run(b, e1 + e2).1 =~= spec_run(b, e1).1 + spec_run(spec_run(b, e1).0, e2).1,
    decreases e1.len(),
{
    if e1.len() == 0 {
        assert(e1 + e2 =~= e2);
    } else {
        let (b1, _) = spec_step(b, e1[0]);
        assert((e1 + e2).subrange(1, (e1 + e2).len() as int) =~= e1.subrange(
            1,
            e1.len() as int,
        ) + e2);
        lemma_run_append(b1, e1.subrange(1, e1.len() as int), e2);
    }
}

} // verus!
