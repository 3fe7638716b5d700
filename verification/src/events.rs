//! Event notifications the daemon reports, and the scalar measurements
//! they carry.
//!
//! Completion percentages arrive from the daemon as decimal numbers in
//! [0, 100]; the aggregator keeps them as integer hundredths of a percent,
//! so 100% is exactly `COMPLETE_HUNDREDTHS` and the two display roundings
//! (floor for the status line, nearest for the tooltip) are exact integer
//! operations.

use vstd::prelude::*;

use crate::format::{format_bytes, spec_bytes_string, spec_digits, spec_round_half_even, u64_string};
use crate::ids::{DeviceID, FolderID};

verus! {

/// Hundredths of a percent standing for exactly 100%.
pub const COMPLETE_HUNDREDTHS: u64 = 100 * 100;

/// Sync completion for one (device, folder) pair, in integer hundredths of
/// a percent of the range [0, 100].
#[derive(Debug, Clone, Copy, PartialEq, Eq, Structural)]
pub struct ProgressPct {
    pub hundredths: u64,
}

impl ProgressPct {
    pub fn new(hundredths: u64) -> (r: Self)
        ensures
            r.hundredths == hundredths,
    {
        ProgressPct { hundredths }
    }

    /// Whether this is exactly 100%, the sentinel meaning "fully synced".
    pub fn is_complete(&self) -> (r: bool)
        ensures
            r == (self.hundredths == COMPLETE_HUNDREDTHS),
    {
        self.hundredths == COMPLETE_HUNDREDTHS
    }

    /// The whole percent, rounded down.
    pub open spec fn spec_floor_string(&self) -> Seq<char> {
        spec_digits(self.hundredths as int / 100)
    }

    /// The whole percent, rounded to nearest (ties to even).
    pub open spec fn spec_rounded_string(&self) -> Seq<char> {
        spec_digits(spec_round_half_even(self.hundredths as int, 100))
    }

    /// The whole percent rounded down, as used in the status line.
    pub fn floor_string(&self) -> (r: String)
        ensures
            r@ == self.spec_floor_string(),
    {
        u64_string(self.hundredths / 100)
    }

    /// The whole percent rounded to nearest, as used in the tooltip.
    pub fn rounded_string(&self) -> (r: String)
        ensures
            r@ == self.spec_rounded_string(),
    {
        let r = crate::format::div_round_half_even(self.hundredths, 100);
        u64_string(r)
    }
}

/// Outstanding bytes for one (device, folder) pair.
#[derive(Debug, Clone, Copy, PartialEq, Eq, Structural)]
pub struct NeedBytes(pub u64);

impl NeedBytes {
    /// The byte count rendered with its MiB/GiB unit.
    pub fn format(&self) -> (r: String)
        ensures
            r@ == spec_bytes_string(self.0 as int),
    {
        format_bytes(self.0)
    }
}

/// The payload of one event, discriminated by the daemon's `type` tag.
#[derive(Debug)]
pub enum EventsResponseData {
    /// The named device dropped its connection.
    DeviceDisconnected { id: DeviceID },
    /// Sync progress for one (device, folder) pair reached `completion`.
    FolderCompletion {
        completion: ProgressPct,
        need_bytes: NeedBytes,
        device: DeviceID,
        folder: FolderID,
    },
}

/// One entry of the daemon's event feed: a sequence ID and a payload.
#[derive(Debug)]
pub struct EventsResponseEntry {
    pub id: u64,
    pub data: EventsResponseData,
}

} // verus!
