//! Counters of the traffic that was let through and held back.

use vstd::prelude::*;

verus! {

/// How much traffic was let through and held back, and when the last of
/// it was seen.
#[derive(Clone, Copy, Debug, PartialEq, Eq, Structural)]
pub struct TrafficStats {
    pub packets_allowed: u64,
    pub packets_blocked: u64,
    pub bytes_allowed: u64,
    pub bytes_blocked: u64,
    pub connections_allowed: u64,
    pub connections_blocked: u64,
    /// The second, counted from the Unix epoch, of the last count.
    pub last_activity: Option<u64>,
}

impl TrafficStats {
    /// Counters that have counted nothing.
    pub open spec fn zero() -> TrafficStats {
        TrafficStats {
            packets_allowed: 0,
            packets_blocked: 0,
            bytes_allowed: 0,
            bytes_blocked: 0,
            connections_allowed: 0,
            connections_blocked: 0,
            last_activity: None,
        }
    }

    /// Counters that have counted nothing.
    pub fn new() -> (stats: TrafficStats)
        ensures
            stats == TrafficStats::zero(),
    {
        TrafficStats {
            packets_allowed: 0,
            packets_blocked: 0,
            bytes_allowed: 0,
            bytes_blocked: 0,
            connections_allowed: 0,
            connections_blocked: 0,
            last_activity: None,
        }
    }

    /// Counts one connection that was let through at the second `now`,
    /// with its packets and bytes.
    pub fn increment_allowed(&mut self, packets: u64, bytes: u64, now: u64)
        requires
            old(self).packets_allowed + packets <= u64::MAX,
            old(self).bytes_allowed + bytes <= u64::MAX,
            old(self).connections_allowed < u64::MAX,
        ensures
            *final(self) == (TrafficStats {
                packets_allowed: (old(self).packets_allowed + packets) as u64,
                bytes_allowed: (old(self).bytes_allowed + bytes) as u64,
                connections_allowed: (old(self).connections_allowed + 1) as u64,
                last_activity: Some(now),
                ..*old(self)
            }),
    {
        self.packets_allowed = self.packets_allowed + packets;
        self.bytes_allowed = self.bytes_allowed + bytes;
        self.connections_allowed = self.connections_allowed + 1;
        self.last_activity = Some(now);
    }

    /// Counts one connection that was held back at the second `now`, with
    /// its packets and bytes.
    pub fn increment_blocked(&mut self, packets: u64, bytes: u64, now: u64)
        requires
            old(self).packets_blocked + packets <= u64::MAX,
            old(self).bytes_blocked + bytes <= u64::MAX,
            old(self).connections_blocked < u64::MAX,
        ensures
            *final(self) == (TrafficStats {
                packets_blocked: (old(self).packets_blocked + packets) as u64,
                bytes_blocked: (old(self).bytes_blocked + bytes) as u64,
                connections_blocked: (old(self).connections_blocked + 1) as u64,
                last_activity: Some(now),
                ..*old(self)
            }),
    {
        self.packets_blocked = self.packets_blocked + packets;
        self.bytes_blocked = self.bytes_blocked + bytes;
        self.connections_blocked = self.connections_blocked + 1;
        self.last_activity = Some(now);
    }

    /// Forgets everything counted.
    pub fn reset(&mut self)
        ensures
            *final(self) == TrafficStats::zero(),
    {
        *self = TrafficStats::new();
    }
}

} // verus!
