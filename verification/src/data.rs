//! A window that moves over the points of a source.

use vstd::prelude::*;
use vstd::std_specs::iter::IteratorSpec;

verus! {

/// A window of the points that a source gives.
pub struct Signal<S: Iterator> {
    /// Where the points come from.
    pub source: S,
    /// The points in the window, oldest first.
    pub points: Vec<S::Item>,
    /// By how many points the window moves at a tick.
    pub tick_rate: usize,
}

impl<S: Iterator> Signal<S> {
    /// A window that holds `points` and moves on by `tick_rate` points.
    pub fn new(source: S, points: Vec<S::Item>, tick_rate: usize) -> (signal: Self)
        ensures
            signal.points == points,
            signal.tick_rate == tick_rate,
            signal.source == source,
    {
        Signal { source, points, tick_rate }
    }

    /// Moves the window on: drops the first `tick_rate` points and takes as
    /// many from the source, or as many as the source still has. The window
    /// has to hold `tick_rate` points or more.
    pub fn on_tick(&mut self)
        requires
            old(self).points@.len() >= old(self).tick_rate,
            old(self).source.obeys_prophetic_iter_laws(),
        ensures
            final(self).tick_rate == old(self).tick_rate,
            ({
                let coming = old(self).source.remaining();
                let count = if coming.len() < old(self).tick_rate {
                    coming.len() as int
                } else {
                    old(self).tick_rate as int
                };
                &&& final(self).points@ == old(self).points@.skip(old(self).tick_rate as int)
                    + coming.take(count)
                &&& final(self).source.remaining() == coming.skip(count)
            }),
    {
        let mut dropped: usize = 0;
        while dropped < self.tick_rate
            invariant
                dropped <= self.tick_rate,
                self.tick_rate == old(self).tick_rate,
                self.source == old(self).source,
                self.points@ == old(self).points@.skip(dropped as int),
                old(self).points@.len() >= old(self).tick_rate,
            decreases self.tick_rate - dropped,
        {
            let _ = self.points.remove(0);
            dropped += 1;
            proof {
                assert(self.points@ =~= old(self).points@.skip(dropped as int));
            }
        }
        let ghost kept = self.points@;
        let ghost coming = self.source.remaining();
        let mut taken: usize = 0;
        proof {
            assert(coming.take(0) =~= Seq::empty());
            assert(self.points@ =~= kept + coming.take(0));
            assert(coming.skip(0) =~= coming);
        }
        while taken < self.tick_rate
            invariant
                taken <= self.tick_rate,
                taken <= coming.len(),
                self.tick_rate == old(self).tick_rate,
                self.source.obeys_prophetic_iter_laws(),
                kept == old(self).points@.skip(old(self).tick_rate as int),
                coming == old(self).source.remaining(),
                self.points@ == kept + coming.take(taken as int),
                self.source.remaining() == coming.skip(taken as int),
            ensures
                taken <= self.tick_rate,
                taken == self.tick_rate || taken == coming.len(),
            decreases self.tick_rate - taken,
        {
            match self.source.next() {
                Some(point) => {
                    self.points.push(point);
                    proof {
                        assert(coming.skip(taken as int)[0] == coming[taken as int]);
                        assert(self.points@ =~= kept + coming.take(taken + 1));
                        assert(coming.skip(taken as int).drop_first() =~= coming.skip(taken + 1));
                    }
                    taken += 1;
                },
                None => {
                    break;
                },
            }
        }
    }
}

} // verus!
