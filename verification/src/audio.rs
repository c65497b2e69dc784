//! The audio cue manager.
//!
//! Starting a vocalization yields a fresh opaque handle; stopping a handle
//! fades the instance out.  Stop is idempotent: stopping a handle that is no
//! longer live changes nothing and issues no request.  The registry itself
//! only tracks handle lifecycles; the actual playback requests are emitted
//! as [`AudioCommand`] values for the embedding to perform.

use vstd::prelude::*;

verus! {

use crate::geom::Vec3Fix;
use crate::seq_util::{lemma_filter_idempotent, lemma_filter_push, lemma_filter_retains_all, lemma_filter_subset};

/// Playback volume factor for vocalizations, in thousandths.
pub const VOCAL_VOLUME_MILLI: u64 = 3000;

/// Spatial audibility radius of a vocalizing bird, in thousandths of a unit.
pub const SPATIAL_RADIUS_MILLI: u64 = 30_000;

/// A request to the external spatialized audio capability.
#[derive(Clone, Copy, PartialEq, Eq, Structural, Debug)]
pub enum AudioCommand {
    /// Begin spatialized playback of `cue` at `pos`, known from now on as `handle`.
    Play { handle: u64, cue: u32, volume_milli: u64, pos: Vec3Fix },
    /// Fade out and stop the instance `handle`.
    Stop { handle: u64 },
}

/// The predicate that keeps every handle other than `h`.
pub open spec fn keeps(h: u64) -> spec_fn(u64) -> bool {
    |x: u64| x != h
}

/// What stopping `h` leaves of a live-instance list.
pub open spec fn stop_spec(s: Seq<u64>, h: u64) -> Seq<u64> {
    s.filter(keeps(h))
}

/// Stopping a handle twice leaves exactly what stopping it once leaves.
pub proof fn lemma_stop_idempotent(s: Seq<u64>, h: u64)
    ensures
        stop_spec(stop_spec(s, h), h) == stop_spec(s, h),
{
    lemma_filter_idempotent(s, keeps(h));
}

/// Tracks the audio instances that have been started and not yet stopped.
pub struct AudioRegistry {
    pub next_handle: u64,
    pub live: Vec<u64>,
}

impl AudioRegistry {
    /// Every live handle was handed out earlier.
    pub open spec fn wf(self) -> bool {
        forall|i: int| 0 <= i < self.live@.len() ==> #[trigger] self.live@[i] < self.next_handle
    }

    pub fn new() -> (r: AudioRegistry)
        ensures
            r.wf(),
            r.next_handle == 0,
            r.live@.len() == 0,
    {
        AudioRegistry { next_handle: 0, live: Vec::new() }
    }

    /// Begin a playback instance: records and returns a fresh handle and
    /// emits the request to start the cue.
    pub fn start(&mut self, cue: u32, volume_milli: u64, pos: Vec3Fix, out: &mut Vec<AudioCommand>) -> (h: u64)
        requires
            old(self).wf(),
            old(self).next_handle < u64::MAX,
        ensures
            final(self).wf(),
            h == old(self).next_handle,
            !old(self).live@.contains(h),
            final(self).live@ == old(self).live@.push(h),
            final(self).next_handle == old(self).next_handle + 1,
            final(out)@ == old(out)@.push(AudioCommand::Play { handle: h, cue, volume_milli, pos }),
    {
        let h = self.next_handle;
        self.next_handle = self.next_handle + 1;
        self.live.push(h);
        out.push(AudioCommand::Play { handle: h, cue, volume_milli, pos });
        h
    }

    /// Fade out and drop the instance `h`.  Idempotent: when `h` is not
    /// live, nothing changes and no request is emitted.
    pub fn stop(&mut self, h: u64, out: &mut Vec<AudioCommand>)
        requires
            old(self).wf(),
        ensures
            final(self).wf(),
            final(self).next_handle == old(self).next_handle,
            final(self).live@ == stop_spec(old(self).live@, h),
            old(self).live@.contains(h) ==> final(out)@ == old(out)@.push(
                AudioCommand::Stop { handle: h },
            ),
            !old(self).live@.contains(h) ==> final(out)@ == old(out)@
                && final(self).live@ == old(self).live@,
    {
        let ghost pred = keeps(h);
        let mut kept: Vec<u64> = Vec::new();
        let mut found: bool = false;
        let mut i: usize = 0;
        proof {
            assert(self.live@.take(0) =~= Seq::<u64>::empty());
            reveal(Seq::filter);
        }
        while i < self.live.len()
            invariant
                i <= self.live@.len(),
                kept@ == self.live@.take(i as int).filter(pred),
                found == self.live@.take(i as int).contains(h),
                pred == keeps(h),
            decreases self.live@.len() - i,
        {
            let v = self.live[i];
            proof {
                assert(self.live@.take(i + 1) =~= self.live@.take(i as int).push(v));
                lemma_filter_push(self.live@.take(i as int), v, pred);
                if v == h {
                    assert(self.live@.take(i + 1)[i as int] == h);
                } else {
                    assert forall|j: int|
                        0 <= j < i + 1 && #[trigger] self.live@.take(i + 1)[j] == h
                        implies self.live@.take(i as int).contains(h) by {
                        assert(j < i);
                        assert(self.live@.take(i as int)[j] == h);
                    }
                }
            }
            if v != h {
                kept.push(v);
            } else {
                found = true;
            }
            i = i + 1;
        }
        proof {
            assert(self.live@.take(self.live@.len() as int) =~= self.live@);
            lemma_filter_subset(self.live@, pred);
        }
        self.live = kept;
        if found {
            out.push(AudioCommand::Stop { handle: h });
        }
        proof {
            if !old(self).live@.contains(h) {
                lemma_filter_retains_all(old(self).live@, pred);
            }
        }
    }
}

} // verus!
