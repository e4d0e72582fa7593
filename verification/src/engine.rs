use crate::clock::{current_minute, now_text};
use crate::counter::{counters_nonneg, is_reset, ports_after, AggregateSnapshot, Count};
use crate::dissect::{
    applied, can_absorb, dispatch, frame_effect, frame_record, lemma_frame_effect_bounds,
    rec_matches, Dissection,
};
use crate::record::FlowRecord;
use crate::window::should_roll;
use vstd::prelude::*;

verus! {

/// The whole engine: the rolling counters plus the minute-of-hour at which
/// the current window started.
pub struct Engine {
    pub count: Count,
    pub last_minute: u32,
}

/// What one engine step does: the frame is folded into the counters and
/// yields its record as `dispatch` says; then, exactly when the minute has
/// changed, the accumulated totals (current frame included) are read out as
/// a snapshot and the counters start a fresh window at the new minute.
pub open spec fn step_post(
    pre: Engine,
    post: Engine,
    frame: Seq<u8>,
    ts: Seq<char>,
    minute: u32,
    rec: Option<FlowRecord>,
    snap: Option<AggregateSnapshot>,
) -> bool {
    let e = frame_effect(frame);
    &&& rec_matches(rec, frame_record(frame), ts)
    &&& if minute != pre.last_minute {
        &&& snap matches Some(s) && {
            &&& s.syn == pre.count.syn + e.syn
            &&& s.ack == pre.count.ack + e.ack
            &&& s.arp == pre.count.arp + e.arp
            &&& s.icmp == pre.count.icmp + e.icmp
            &&& s.traffic == pre.count.traffic + e.traffic
            &&& s.distinct_port_count == ports_after(pre.count.port@, e.ports).len()
        }
        &&& is_reset(post.count)
        &&& post.last_minute == minute
    } else {
        &&& snap is None
        &&& applied(pre.count, post.count, e)
        &&& post.last_minute == pre.last_minute
    }
}

impl Engine {
    /// A fresh engine: zero counters, window starting at `start_minute`.
    pub fn new(start_minute: u32) -> (e: Engine)
        ensures
            is_reset(e.count),
            e.last_minute == start_minute,
    {
        Engine { count: Count::new(), last_minute: start_minute }
    }

    /// Process one captured frame with the clock injected: `timestamp` goes
    /// into any emitted record and `minute` drives the rollover check, which
    /// runs after the frame is counted.
    pub fn process_frame(&mut self, frame: &[u8], timestamp: &str, minute: u32) -> (out: (
        Option<FlowRecord>,
        Option<AggregateSnapshot>,
    ))
        requires
            can_absorb(old(self).count, frame@.len() as int),
        ensures
            step_post(*old(self), *final(self), frame@, timestamp@, minute, out.0, out.1),
            counters_nonneg(old(self).count) ==> counters_nonneg(final(self).count),
    {
        proof {
            lemma_frame_effect_bounds(frame@);
        }
        let rec = match dispatch(frame, timestamp, &mut self.count) {
            Dissection::Parsed(r) => r,
            Dissection::TooShort => None,
            Dissection::UnsupportedProtocol => None,
        };
        let snap = if should_roll(self.last_minute, minute) {
            self.last_minute = minute;
            Some(self.count.snapshot_and_reset())
        } else {
            None
        };
        (rec, snap)
    }

    /// Process one captured frame against the live wall clock. The clock
    /// decides the timestamp and the minute, so the step relation is
    /// promised for some minute below 60 and some timestamp text.
    pub fn process_frame_now(&mut self, frame: &[u8]) -> (out: (
        Option<FlowRecord>,
        Option<AggregateSnapshot>,
    ))
        requires
            can_absorb(old(self).count, frame@.len() as int),
        ensures
            exists|minute: u32, ts: Seq<char>|
                minute < 60 && #[trigger] step_post(
                    *old(self),
                    *final(self),
                    frame@,
                    ts,
                    minute,
                    out.0,
                    out.1,
                ),
            counters_nonneg(old(self).count) ==> counters_nonneg(final(self).count),
    {
        let ts = now_text();
        let minute = current_minute();
        let out = self.process_frame(frame, ts.as_str(), minute);
        proof {
            assert(step_post(*old(self), *self, frame@, ts@, minute, out.0, out.1));
        }
        out
    }
}

} // verus!
