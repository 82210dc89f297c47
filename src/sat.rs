//! Geodetic locations and the state snapshot a tracker keeps of its satellite.
use vstd::prelude::*;
use crate::julian_time::CivilTime;

verus! {

/// Microdegrees in a degree: angles are held as integer microdegrees.
pub const MICRODEGREES: i64 = 1_000_000;

/// A geodetic location: latitude and longitude in microdegrees, altitude in
/// millimetres above the reference ellipsoid.
#[derive(Clone, Copy, Debug, PartialEq, Eq, Structural)]
pub struct Location {
    pub lat_deg_e6: i64,
    pub lon_deg_e6: i64,
    pub alt_mm: i64,
}

impl Location {
    /// Latitude within [-90, 90] degrees and longitude within [-180, 180] degrees.
    pub open spec fn wf(self) -> bool {
        -90 * MICRODEGREES <= self.lat_deg_e6 <= 90 * MICRODEGREES && -180 * MICRODEGREES
            <= self.lon_deg_e6 <= 180 * MICRODEGREES
    }

    /// Checks the ranges of latitude and longitude.
    pub fn is_valid(&self) -> (r: bool)
        ensures
            r == self.wf(),
    {
        -90 * MICRODEGREES <= self.lat_deg_e6 && self.lat_deg_e6 <= 90 * MICRODEGREES && -180
            * MICRODEGREES <= self.lon_deg_e6 && self.lon_deg_e6 <= 180 * MICRODEGREES
    }
}

/// What an orbit propagator reports of a satellite at one instant, as seen
/// from one observer. Angles in microdegrees, lengths in millimetres, rates in
/// millimetres per second.
#[derive(Clone, Copy, Debug, PartialEq, Eq, Structural)]
pub struct Observation {
    pub az_deg_e6: i64,
    pub el_deg_e6: i64,
    pub range_mm: i64,
    pub range_rate_mm_s: i64,
    pub lat_deg_e6: i64,
    pub lon_deg_e6: i64,
    pub alt_mm: i64,
    pub vel_mm_s: i64,
    pub orbit_nr: u64,
}

impl Observation {
    /// Azimuth within [0, 360), elevation within [-90, 90], a range that is not
    /// negative and a sub-satellite point that is a valid location.
    pub open spec fn wf(self) -> bool {
        &&& 0 <= self.az_deg_e6 < 360 * MICRODEGREES
        &&& -90 * MICRODEGREES <= self.el_deg_e6 <= 90 * MICRODEGREES
        &&& self.range_mm >= 0
        &&& (Location {
            lat_deg_e6: self.lat_deg_e6,
            lon_deg_e6: self.lon_deg_e6,
            alt_mm: self.alt_mm,
        }).wf()
    }

    pub fn is_valid(&self) -> (r: bool)
        ensures
            r == self.wf(),
    {
        let ssp = Location { lat_deg_e6: self.lat_deg_e6, lon_deg_e6: self.lon_deg_e6, alt_mm: self.alt_mm };
        0 <= self.az_deg_e6 && self.az_deg_e6 < 360 * MICRODEGREES && -90 * MICRODEGREES
            <= self.el_deg_e6 && self.el_deg_e6 <= 90 * MICRODEGREES && self.range_mm >= 0
            && ssp.is_valid()
    }
}

/// The state of a satellite at the instant of the last query.
#[derive(Clone, Copy, Debug, PartialEq, Eq, Structural)]
pub struct Sat {
    /// next AOS
    pub aos: Option<CivilTime>,
    /// next LOS
    pub los: Option<CivilTime>,
    /// azimuth [microdegrees]
    pub az_deg_e6: i64,
    /// elevation [microdegrees]
    pub el_deg_e6: i64,
    /// range [mm]
    pub range_mm: i64,
    /// range rate [mm/s]
    pub range_rate_mm_s: i64,
    /// sub-satellite point latitude [microdegrees]
    pub lat_deg_e6: i64,
    /// sub-satellite point longitude [microdegrees]
    pub lon_deg_e6: i64,
    /// altitude [mm]
    pub alt_mm: i64,
    /// velocity [mm/s]
    pub vel_mm_s: i64,
    /// orbit number
    pub orbit_nr: u64,
}

/// A civil time that is the reading of a continuous time, or absent on both sides.
pub open spec fn reads_as(c: Option<CivilTime>, j: Option<crate::julian_time::JulianTime>) -> bool {
    match (c, j) {
        (None, None) => true,
        (Some(c), Some(j)) => c.wf() && crate::julian_time::julian_nanos(c) == j.nanos,
        _ => false,
    }
}

impl Sat {
    /// The snapshot before any query: no crossings and all quantities zero.
    pub open spec fn empty() -> Sat {
        Sat {
            aos: None,
            los: None,
            az_deg_e6: 0,
            el_deg_e6: 0,
            range_mm: 0,
            range_rate_mm_s: 0,
            lat_deg_e6: 0,
            lon_deg_e6: 0,
            alt_mm: 0,
            vel_mm_s: 0,
            orbit_nr: 0,
        }
    }

    /// The fields that come from one observation.
    pub open spec fn observes(self, o: Observation) -> bool {
        &&& self.az_deg_e6 == o.az_deg_e6
        &&& self.el_deg_e6 == o.el_deg_e6
        &&& self.range_mm == o.range_mm
        &&& self.range_rate_mm_s == o.range_rate_mm_s
        &&& self.lat_deg_e6 == o.lat_deg_e6
        &&& self.lon_deg_e6 == o.lon_deg_e6
        &&& self.alt_mm == o.alt_mm
        &&& self.vel_mm_s == o.vel_mm_s
        &&& self.orbit_nr == o.orbit_nr
    }

    /// Look angles in range, a range that is not negative, a valid
    /// sub-satellite point, and crossings that are real civil times.
    pub open spec fn wf(self) -> bool {
        &&& 0 <= self.az_deg_e6 < 360 * MICRODEGREES
        &&& -90 * MICRODEGREES <= self.el_deg_e6 <= 90 * MICRODEGREES
        &&& self.range_mm >= 0
        &&& self.ssp().wf()
        &&& (self.aos matches Some(c) ==> c.wf())
        &&& (self.los matches Some(c) ==> c.wf())
    }

    /// The sub-satellite point.
    pub open spec fn ssp(self) -> Location {
        Location { lat_deg_e6: self.lat_deg_e6, lon_deg_e6: self.lon_deg_e6, alt_mm: self.alt_mm }
    }

    /// The sub-satellite point, as a geodetic location.
    pub fn location(&self) -> (r: Location)
        ensures
            r == self.ssp(),
    {
        Location { lat_deg_e6: self.lat_deg_e6, lon_deg_e6: self.lon_deg_e6, alt_mm: self.alt_mm }
    }
}

impl Default for Sat {
    fn default() -> (r: Sat)
        ensures
            r == Sat::empty(),
    {
        Sat {
            aos: None,
            los: None,
            az_deg_e6: 0,
            el_deg_e6: 0,
            range_mm: 0,
            range_rate_mm_s: 0,
            lat_deg_e6: 0,
            lon_deg_e6: 0,
            alt_mm: 0,
            vel_mm_s: 0,
            orbit_nr: 0,
        }
    }
}

} // verus!
