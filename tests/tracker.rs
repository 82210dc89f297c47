use gpredict::julian_time::{julian_timestamp, julian_to_unix, CivilTime, JulianTime, NANOS_PER_DAY};
use gpredict::predict::{Predict, PredictError, Propagator};
use gpredict::sat::{Location, Observation, Sat};
use gpredict::tle::{parse_elements, ElementSet, Exponential, Tle};

const GRIFEX_1: &str = "1 40379U 15003D   15243.42702278  .00003367  00000-0  17130-3 0  9993";
const GRIFEX_2: &str = "2 40379  99.1124 290.6779 0157088   8.9691 351.4280 15.07659299 31889";
const ESTCUBE_1: &str = "1 39161U 13021C   15091.47675532  .00001890  00000-0  31643-3 0  9990";
const ESTCUBE_2: &str = "2 39161  98.0727 175.0786 0009451 192.0216 168.0788 14.70951130101965";

fn grifex() -> Tle {
    Tle { name: "GRIFEX".to_string(), line1: GRIFEX_1.to_string(), line2: GRIFEX_2.to_string() }
}

fn estcube() -> Tle {
    Tle { name: "ESTCUBE 1".to_string(), line1: ESTCUBE_1.to_string(), line2: ESTCUBE_2.to_string() }
}

fn observer() -> Location {
    Location { lat_deg_e6: 58_645_600, lon_deg_e6: 23_151_630, alt_mm: 8_000 }
}

fn civil(year: i32, month: i32, day: i32, hour: i32, minute: i32, second: i32) -> CivilTime {
    CivilTime { year, month, day, hour, minute, second, nanosecond: 0 }
}

fn observation(orbit_nr: u64) -> Observation {
    Observation {
        az_deg_e6: 123_450_000,
        el_deg_e6: -12_500_000,
        range_mm: 2_345_678_000,
        range_rate_mm_s: -5_432_000,
        lat_deg_e6: 51_000_000,
        lon_deg_e6: -3_000_000,
        alt_mm: 650_000_000,
        vel_mm_s: 7_500_000,
        orbit_nr,
    }
}

/// A stand-in engine: crossings a fixed offset after the queried instant and
/// a fixed observation, with the orbit number counting the calls.
struct Scripted {
    aos_after: Option<i128>,
    los_after: Option<i128>,
    obs: Option<Observation>,
    orbit_step: i64,
    calls: u64,
    horizons: Vec<i64>,
}

impl Scripted {
    fn new(aos_after: Option<i128>, los_after: Option<i128>) -> Scripted {
        Scripted { aos_after, los_after, obs: Some(observation(31889)), orbit_step: 1, calls: 0, horizons: Vec::new() }
    }
}

impl Propagator for Scripted {
    fn state_at(&mut self, _e: &ElementSet, _o: &Location, _t: JulianTime) -> Option<Observation> {
        let n = self.calls as i64 * self.orbit_step;
        self.calls += 1;
        self.obs.map(|mut o| {
            o.orbit_nr = (o.orbit_nr as i64 + n) as u64;
            o
        })
    }

    fn next_crossing(
        &mut self,
        _e: &ElementSet,
        _o: &Location,
        after: JulianTime,
        horizon: i64,
        rising: bool,
    ) -> Option<JulianTime> {
        self.horizons.push(horizon);
        let offset = if rising { self.aos_after } else { self.los_after };
        offset.map(|d| JulianTime { nanos: after.nanos + d })
    }
}

#[test]
fn predict_location_formats() {
    let lla = Location { lat_deg_e6: 0, lon_deg_e6: 0, alt_mm: 0 };
    assert!(Predict::new(&grifex(), lla).is_ok());
    assert!(Predict::new(&grifex(), lla.clone()).is_ok());
    assert_eq!(Predict::new(&grifex(), lla).unwrap().name(), "GRIFEX");
}

#[test]
fn sat_location_formats() {
    let sat = Sat::default();
    let lla: Location = sat.location();
    assert_eq!(lla, Location { lat_deg_e6: 0, lon_deg_e6: 0, alt_mm: 0 });
}

#[test]
fn decode_reference_element_set() {
    let e = grifex().elements().unwrap();
    assert_eq!(e.catalog_number, 40379);
    assert_eq!(e.epoch_year, 15);
    assert_eq!(e.epoch_day_e8, 24_342_702_278);
    assert_eq!(e.mean_motion_dot_e8, 3367);
    assert_eq!(e.mean_motion_ddot, Exponential { mantissa: 0, exponent: 0 });
    assert_eq!(e.bstar, Exponential { mantissa: 17130, exponent: -3 });
    assert_eq!(e.inclination_deg_e4, 991_124);
    assert_eq!(e.right_ascension_deg_e4, 2_906_779);
    assert_eq!(e.eccentricity_e7, 157_088);
    assert_eq!(e.argument_of_perigee_deg_e4, 89_691);
    assert_eq!(e.mean_anomaly_deg_e4, 3_514_280);
    assert_eq!(e.mean_motion_e8, 1_507_659_299);
    assert_eq!(e.revolution_number, 3188);
    let e = estcube().elements().unwrap();
    assert_eq!(e.catalog_number, 39161);
    assert_eq!(e.revolution_number, 10196);
}

#[test]
fn decode_rejects_malformed_lines() {
    let bad_checksum = GRIFEX_1.replace("9993", "9994");
    assert_eq!(parse_elements(bad_checksum.as_bytes(), GRIFEX_2.as_bytes()), None);
    assert_eq!(parse_elements(&GRIFEX_1.as_bytes()[..68], GRIFEX_2.as_bytes()), None);
    assert_eq!(parse_elements(GRIFEX_2.as_bytes(), GRIFEX_1.as_bytes()), None);
    assert_eq!(parse_elements(GRIFEX_1.as_bytes(), ESTCUBE_2.as_bytes()), None);
    let no_point = GRIFEX_2.replace("99.1124", "9911245");
    assert_eq!(parse_elements(GRIFEX_1.as_bytes(), no_point.as_bytes()), None);
}

#[test]
fn malformed_element_line_fails_construction() {
    let tle = Tle {
        name: "GRIFEX".to_string(),
        line1: GRIFEX_1.replace("15243", "15x43"),
        line2: GRIFEX_2.to_string(),
    };
    assert!(matches!(Predict::new(&tle, observer()), Err(PredictError::InvalidElementSet)));
}

#[test]
fn out_of_range_location_fails_construction() {
    let north = Location { lat_deg_e6: 90_000_001, lon_deg_e6: 0, alt_mm: 0 };
    assert!(matches!(Predict::new(&grifex(), north), Err(PredictError::InvalidLocation)));
    let east = Location { lat_deg_e6: 0, lon_deg_e6: 180_000_001, alt_mm: 0 };
    assert!(matches!(Predict::new(&grifex(), east), Err(PredictError::InvalidLocation)));
    let edge = Location { lat_deg_e6: -90_000_000, lon_deg_e6: -180_000_000, alt_mm: -10 };
    assert!(Predict::new(&grifex(), edge).is_ok());
}

#[test]
fn new_tracker_starts_empty() {
    let p = Predict::new(&estcube(), observer()).unwrap();
    assert_eq!(*p.sat(), Sat::default());
    assert_eq!(p.observer(), observer());
    assert_eq!(p.queried_at(), None);
    assert_eq!(p.elements().catalog_number, 39161);
    assert_eq!(p.name(), "ESTCUBE 1");
    let unnamed = Tle { name: String::new(), line1: ESTCUBE_1.to_string(), line2: ESTCUBE_2.to_string() };
    assert_eq!(Predict::new(&unnamed, observer()).unwrap().name(), "");
}

#[test]
fn query_reports_snapshot_in_range() {
    let mut p = Predict::new(&grifex(), observer()).unwrap();
    let mut engine = Scripted::new(Some(NANOS_PER_DAY / 24), Some(NANOS_PER_DAY / 12));
    let t = civil(2015, 8, 31, 10, 0, 0);
    assert_eq!(p.update(&mut engine, Some(t)), Ok(()));
    let s = p.sat();
    assert!(s.el_deg_e6 >= -90_000_000 && s.el_deg_e6 <= 90_000_000);
    assert!(s.az_deg_e6 >= 0 && s.az_deg_e6 < 360_000_000);
    assert!(s.range_mm > 0);
    assert_eq!(s.aos, Some(civil(2015, 8, 31, 11, 0, 0)));
    assert_eq!(s.los, Some(civil(2015, 8, 31, 12, 0, 0)));
    assert_eq!(p.queried_at(), Some(julian_timestamp(t)));
}

#[test]
fn crossings_present_or_absent_independently() {
    let t = civil(2015, 8, 31, 10, 0, 0);
    let hour = NANOS_PER_DAY / 24;
    let cases = [
        (Some(hour), Some(2 * hour)),
        (Some(hour), None),
        (None, Some(2 * hour)),
        (None, None),
    ];
    for (aos, los) in cases.iter() {
        let mut p = Predict::new(&grifex(), observer()).unwrap();
        let mut engine = Scripted::new(*aos, *los);
        assert_eq!(p.update(&mut engine, Some(t)), Ok(()));
        assert_eq!(p.sat().aos.is_some(), aos.is_some());
        assert_eq!(p.sat().los.is_some(), los.is_some());
    }
}

#[test]
fn orbit_number_does_not_decrease() {
    let mut p = Predict::new(&grifex(), observer()).unwrap();
    let mut engine = Scripted::new(Some(NANOS_PER_DAY / 24), None);
    assert_eq!(p.update(&mut engine, Some(civil(2015, 8, 31, 10, 0, 0))), Ok(()));
    let first = p.sat().orbit_nr;
    assert_eq!(p.update(&mut engine, Some(civil(2015, 8, 31, 11, 0, 0))), Ok(()));
    assert!(p.sat().orbit_nr >= first);

    // An engine whose orbit count runs backwards is refused.
    engine.orbit_step = -5;
    let before = *p.sat();
    assert_eq!(
        p.update(&mut engine, Some(civil(2015, 8, 31, 12, 0, 0))),
        Err(PredictError::PropagatorFailure)
    );
    assert_eq!(*p.sat(), before);
}

#[test]
fn propagator_failure_leaves_snapshot() {
    let t = civil(2015, 8, 31, 10, 0, 0);
    let mut p = Predict::new(&grifex(), observer()).unwrap();
    let mut good = Scripted::new(Some(NANOS_PER_DAY / 24), None);
    assert_eq!(p.update(&mut good, Some(t)), Ok(()));
    let before = *p.sat();

    let mut decayed = Scripted::new(None, None);
    decayed.obs = None;
    assert_eq!(p.update(&mut decayed, Some(t)), Err(PredictError::PropagatorFailure));
    assert_eq!(*p.sat(), before);

    let mut past = Scripted::new(Some(-1), None);
    assert_eq!(p.update(&mut past, Some(t)), Err(PredictError::PropagatorFailure));

    let mut wild = Scripted::new(None, None);
    let mut o = observation(1);
    o.el_deg_e6 = 91_000_000;
    wild.obs = Some(o);
    assert_eq!(p.update(&mut wild, Some(t)), Err(PredictError::PropagatorFailure));
    assert_eq!(*p.sat(), before);
}

#[test]
fn apply_converts_crossings_to_civil_time() {
    let mut p = Predict::new(&grifex(), observer()).unwrap();
    let t = julian_timestamp(civil(2015, 8, 31, 10, 0, 0));
    let aos = JulianTime { nanos: t.nanos + NANOS_PER_DAY };
    assert_eq!(p.apply(t, Some(aos), None, Some(observation(7))), Ok(()));
    assert_eq!(p.sat().aos, Some(civil(2015, 9, 1, 10, 0, 0)));
    assert_eq!(p.sat().aos, Some(julian_to_unix(aos)));
    assert_eq!(p.sat().orbit_nr, 7);
    assert_eq!(p.sat().vel_mm_s, 7_500_000);
}

#[test]
fn query_without_time_uses_clock() {
    let mut p = Predict::new(&grifex(), observer()).unwrap();
    let mut engine = Scripted::new(None, None);
    assert_eq!(p.update(&mut engine, None), Ok(()));
    let at = julian_to_unix(p.queried_at().unwrap());
    assert!(at.year >= 2020);
}

#[test]
fn crossings_searched_at_configured_horizon() {
    let t = civil(2015, 8, 31, 10, 0, 0);
    let p = Predict::new(&grifex(), observer()).unwrap();
    assert_eq!(p.horizon(), 0);
    let mut engine = Scripted::new(None, None);
    let mut p = p;
    assert_eq!(p.update(&mut engine, Some(t)), Ok(()));
    assert_eq!(engine.horizons, vec![0, 0]);

    let mut p = Predict::new(&grifex(), observer()).unwrap().with_horizon(5_000_000);
    assert_eq!(p.horizon(), 5_000_000);
    let mut engine = Scripted::new(None, None);
    assert_eq!(p.update(&mut engine, Some(t)), Ok(()));
    assert_eq!(engine.horizons, vec![5_000_000, 5_000_000]);
}
