use vstd::prelude::*;

verus! {

/// Charge at or above which a charging source is reported as (too) full.
pub const HIGH_THRESHOLD: u8 = 80;

/// Charge at or below which a discharging source is reported as low.
pub const LOW_THRESHOLD: u8 = 30;

/// Charge at or below which a discharging source is reported as critical.
pub const CRITICAL_THRESHOLD: u8 = 10;

/// What a power source reports that it is doing.
#[derive(Clone, Copy, Debug, PartialEq, Eq, Structural)]
pub enum Mode {
    Charging,
    Discharging,
    /// Unknown, full, not charging, or anything else.
    Other,
}

/// The classified state of a power source.
#[derive(Clone, Copy, Debug, PartialEq, Eq, Structural)]
pub enum Zone {
    DischargingNormal,
    DischargingLow,
    DischargingCritical,
    ChargingNormal,
    ChargingHigh,
    Other,
}

/// The coarse grouping of a zone, ignoring severity.
#[derive(Clone, Copy, Debug, PartialEq, Eq, Structural)]
pub enum Family {
    Charging,
    Discharging,
    Other,
}

/// One sample of a power source: its identifier, its charge in percent
/// (0 to 100) and its mode.
#[derive(Clone, Debug, PartialEq, Eq)]
pub struct Reading {
    pub source: String,
    pub percent: u8,
    pub mode: Mode,
}

/// The mathematical value of a [`Reading`].
pub struct ReadingView {
    pub source: Seq<char>,
    pub percent: u8,
    pub mode: Mode,
}

impl View for Reading {
    type V = ReadingView;

    open spec fn view(&self) -> ReadingView {
        ReadingView { source: self.source@, percent: self.percent, mode: self.mode }
    }
}

/// The views of a sequence of readings.
pub open spec fn views_of(rs: Seq<Reading>) -> Seq<ReadingView> {
    rs.map_values(|r: Reading| r@)
}

/// The zone that a sample with the given mode and charge falls in.
pub open spec fn classify_spec(mode: Mode, percent: u8) -> Zone {
    match mode {
        Mode::Other => Zone::Other,
        Mode::Discharging => if percent <= CRITICAL_THRESHOLD {
            Zone::DischargingCritical
        } else if percent <= LOW_THRESHOLD {
            Zone::DischargingLow
        } else {
            Zone::DischargingNormal
        },
        Mode::Charging => if percent >= HIGH_THRESHOLD {
            Zone::ChargingHigh
        } else {
            Zone::ChargingNormal
        },
    }
}

/// The zone of a reading.
pub open spec fn zone_of(r: ReadingView) -> Zone {
    classify_spec(r.mode, r.percent)
}

pub open spec fn family_spec(z: Zone) -> Family {
    match z {
        Zone::DischargingNormal | Zone::DischargingLow | Zone::DischargingCritical => Family::Discharging,
        Zone::ChargingNormal | Zone::ChargingHigh => Family::Charging,
        Zone::Other => Family::Other,
    }
}

/// The zones whose entry calls for a threshold alert.
pub open spec fn is_threshold_spec(z: Zone) -> bool {
    z == Zone::DischargingLow || z == Zone::DischargingCritical || z == Zone::ChargingHigh
}

/// Classifies a reading. Bounds are inclusive on the severe side: a charge
/// exactly at a threshold is already in the more severe zone.
pub fn classify(r: &Reading) -> (z: Zone)
    ensures
        z == zone_of(r@),
{
    match r.mode {
        Mode::Other => Zone::Other,
        Mode::Discharging => {
            if r.percent <= CRITICAL_THRESHOLD {
                Zone::DischargingCritical
            } else if r.percent <= LOW_THRESHOLD {
                Zone::DischargingLow
            } else {
                Zone::DischargingNormal
            }
        },
        Mode::Charging => {
            if r.percent >= HIGH_THRESHOLD {
                Zone::ChargingHigh
            } else {
                Zone::ChargingNormal
            }
        },
    }
}

impl Zone {
    /// The family of this zone.
    pub fn family(&self) -> (f: Family)
        ensures
            f == family_spec(*self),
    {
        match self {
            Zone::DischargingNormal | Zone::DischargingLow | Zone::DischargingCritical => Family::Discharging,
            Zone::ChargingNormal | Zone::ChargingHigh => Family::Charging,
            Zone::Other => Family::Other,
        }
    }

    /// Whether entering this zone calls for a threshold alert.
    pub fn is_threshold(&self) -> (b: bool)
        ensures
            b == is_threshold_spec(*self),
    {
        match self {
            Zone::DischargingLow | Zone::DischargingCritical | Zone::ChargingHigh => true,
            _ => false,
        }
    }
}

} // verus!
