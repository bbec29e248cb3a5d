use vstd::prelude::*;

verus! {

/// `a + b`, held at `u64::MAX` when the sum does not fit.
pub open spec fn sat_add(a: u64, b: int) -> u64 {
    if a + b > u64::MAX {
        u64::MAX
    } else {
        (a + b) as u64
    }
}

/// Bytes in one mebibyte, the unit of the byte total in a report.
pub const BYTES_PER_MEBIBYTE: u64 = 1048576;

/// Cumulative totals since capture started, and window counters that are
/// cleared at each rotation. Window counters only feed reports; nothing
/// decides on them but the rotation threshold, which reads the window bytes.
///
/// Counters saturate at `u64::MAX` rather than wrap.
#[derive(Clone, Copy, Debug, PartialEq, Eq)]
pub struct CaptureStats {
    pub total_missed_counter: u64,
    pub total_captured_counter: u64,
    pub total_captured_counter_bytes: u64,
    pub current_missed_count: u64,
    pub current_capture_count: u64,
    pub current_capture_count_bytes: u64,
}

/// The figures of one stats line: window and cumulative capture and miss
/// counts, and the cumulative captured bytes in whole mebibytes.
#[derive(Clone, Copy, Debug, PartialEq, Eq)]
pub struct StatsReport {
    pub window_missed: u64,
    pub window_captured: u64,
    pub total_missed: u64,
    pub total_captured: u64,
    pub total_megabytes: u32,
}

/// Whole mebibytes in `bytes`, held at `u32::MAX`.
pub open spec fn megabytes_of(bytes: u64) -> u32 {
    if bytes / BYTES_PER_MEBIBYTE > u32::MAX {
        u32::MAX
    } else {
        (bytes / BYTES_PER_MEBIBYTE) as u32
    }
}

impl CaptureStats {
    /// Every counter is zero.
    pub open spec fn is_zero(&self) -> bool {
        &&& self.total_missed_counter == 0
        &&& self.total_captured_counter == 0
        &&& self.total_captured_counter_bytes == 0
        &&& self.current_missed_count == 0
        &&& self.current_capture_count == 0
        &&& self.current_capture_count_bytes == 0
    }

    /// The cumulative totals of `self` and `other` agree.
    pub open spec fn same_totals(&self, other: &CaptureStats) -> bool {
        &&& self.total_missed_counter == other.total_missed_counter
        &&& self.total_captured_counter == other.total_captured_counter
        &&& self.total_captured_counter_bytes == other.total_captured_counter_bytes
    }

    /// The window counters of `self` and `other` agree.
    pub open spec fn same_window(&self, other: &CaptureStats) -> bool {
        &&& self.current_missed_count == other.current_missed_count
        &&& self.current_capture_count == other.current_capture_count
        &&& self.current_capture_count_bytes == other.current_capture_count_bytes
    }

    pub fn new() -> (r: CaptureStats)
        ensures
            r.is_zero(),
    {
        CaptureStats {
            total_missed_counter: 0,
            total_captured_counter: 0,
            total_captured_counter_bytes: 0,
            current_missed_count: 0,
            current_capture_count: 0,
            current_capture_count_bytes: 0,
        }
    }

    /// Folds `new_missed` dropped packets into the window and the total.
    pub fn increment_missed_counter(&mut self, new_missed: u64)
        ensures
            final(self).current_missed_count == sat_add(old(self).current_missed_count, new_missed as int),
            final(self).total_missed_counter == sat_add(old(self).total_missed_counter, new_missed as int),
            final(self).total_captured_counter == old(self).total_captured_counter,
            final(self).total_captured_counter_bytes == old(self).total_captured_counter_bytes,
            final(self).current_capture_count == old(self).current_capture_count,
            final(self).current_capture_count_bytes == old(self).current_capture_count_bytes,
    {
        self.current_missed_count = self.current_missed_count.saturating_add(new_missed);
        self.total_missed_counter = self.total_missed_counter.saturating_add(new_missed);
    }

    /// Clears the window miss count and returns what it held.
    pub fn reset_last_missed(&mut self) -> (r: u64)
        ensures
            r == old(self).current_missed_count,
            *final(self) == (CaptureStats { current_missed_count: 0, ..*old(self) }),
    {
        let last_missed = self.current_missed_count;
        self.current_missed_count = 0;
        last_missed
    }

    /// Counts one captured packet of `new_packet_size` bytes.
    pub fn increment_capture_counter(&mut self, new_packet_size: u64)
        ensures
            final(self).total_captured_counter == sat_add(old(self).total_captured_counter, 1),
            final(self).current_capture_count == sat_add(old(self).current_capture_count, 1),
            final(self).total_captured_counter_bytes == sat_add(
                old(self).total_captured_counter_bytes,
                new_packet_size as int,
            ),
            final(self).current_capture_count_bytes == sat_add(
                old(self).current_capture_count_bytes,
                new_packet_size as int,
            ),
            final(self).total_missed_counter == old(self).total_missed_counter,
            final(self).current_missed_count == old(self).current_missed_count,
    {
        self.total_captured_counter = self.total_captured_counter.saturating_add(1);
        self.current_capture_count = self.current_capture_count.saturating_add(1);
        self.total_captured_counter_bytes = self.total_captured_counter_bytes.saturating_add(
            new_packet_size,
        );
        self.current_capture_count_bytes = self.current_capture_count_bytes.saturating_add(
            new_packet_size,
        );
    }

    /// Clears the window capture counters and returns the packet and byte
    /// counts they held.
    pub fn reset_last_capture(&mut self) -> (r: (u64, u64))
        ensures
            r == (old(self).current_capture_count, old(self).current_capture_count_bytes),
            *final(self) == (CaptureStats {
                current_capture_count: 0,
                current_capture_count_bytes: 0,
                ..*old(self)
            }),
    {
        let last_capture = self.current_capture_count;
        let last_capture_bytes = self.current_capture_count_bytes;
        self.current_capture_count = 0;
        self.current_capture_count_bytes = 0;
        (last_capture, last_capture_bytes)
    }

    /// Clears every window counter and returns the missed count, the
    /// captured count and the captured bytes they held. Totals are kept.
    pub fn reset_all_last_counter(&mut self) -> (r: (u64, u64, u64))
        ensures
            r == (
                old(self).current_missed_count,
                old(self).current_capture_count,
                old(self).current_capture_count_bytes,
            ),
            final(self).same_totals(old(self)),
            final(self).current_missed_count == 0,
            final(self).current_capture_count == 0,
            final(self).current_capture_count_bytes == 0,
    {
        let capture_counter = self.reset_last_capture();
        (self.reset_last_missed(), capture_counter.0, capture_counter.1)
    }

    /// The figures of a stats line for the current counters.
    pub fn report(&self) -> (r: StatsReport)
        ensures
            r.window_missed == self.current_missed_count,
            r.window_captured == self.current_capture_count,
            r.total_missed == self.total_missed_counter,
            r.total_captured == self.total_captured_counter,
            r.total_megabytes == megabytes_of(self.total_captured_counter_bytes),
    {
        let mb = self.total_captured_counter_bytes / BYTES_PER_MEBIBYTE;
        let total_megabytes: u32 = if mb > u32::MAX as u64 {
            u32::MAX
        } else {
            mb as u32
        };
        StatsReport {
            window_missed: self.current_missed_count,
            window_captured: self.current_capture_count,
            total_missed: self.total_missed_counter,
            total_captured: self.total_captured_counter,
            total_megabytes,
        }
    }
}

} // verus!
