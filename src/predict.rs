//! The tracker: one element set and one observer, and the snapshot of the last
//! query, assembled from what an orbit propagator reports.
use vstd::prelude::*;
use crate::julian_time::{
    julian_nanos, julian_now, julian_timestamp, julian_to_unix, CivilTime, JulianTime,
    JULIAN_END_NANOS, JULIAN_MIN_NANOS,
};
use crate::sat::{reads_as, Location, Observation, Sat, MICRODEGREES};
use crate::tle::{decode, ElementSet, Tle};

verus! {

/// The horizon crossings are searched at unless configured otherwise, in
/// microdegrees of elevation.
pub const DEFAULT_HORIZON_DEG_E6: i64 = 0;

#[derive(Clone, Copy, Debug, PartialEq, Eq, Structural)]
pub enum PredictError {
    /// The element lines are malformed or inconsistent.
    InvalidElementSet,
    /// The observer's latitude or longitude is out of range.
    InvalidLocation,
    /// The propagator could not give a valid state for the query.
    PropagatorFailure,
}

/// An orbit propagation engine: the look angles of a satellite at an instant,
/// and the search for its next horizon crossing.
pub trait Propagator {
    /// The satellite as seen from `observer` at `t`; `None` where the model
    /// cannot give a state (a decayed orbit, for one).
    fn state_at(&mut self, elements: &ElementSet, observer: &Location, t: JulianTime) -> Option<
        Observation,
    >;

    /// The first instant after `after` at which the elevation crosses
    /// `horizon_deg_e6`, rising or setting; `None` where there is none.
    fn next_crossing(
        &mut self,
        elements: &ElementSet,
        observer: &Location,
        after: JulianTime,
        horizon_deg_e6: i64,
        rising: bool,
    ) -> Option<JulianTime>;
}

/// A crossing that a query can use: absent, or after the queried instant and
/// with a civil reading.
pub open spec fn crossing_ok(c: Option<JulianTime>, t: JulianTime) -> bool {
    c matches Some(x) ==> x.nanos > t.nanos && x.in_civil_range()
}

/// Tracks one satellite from one observer. It owns its element set, its
/// observer and the snapshot of its last query, which only a query replaces.
pub struct Predict {
    name: String,
    sat: Sat,
    elements: ElementSet,
    observer: Location,
    queried_at: Option<JulianTime>,
    horizon_deg_e6: i64,
}

impl Predict {
    /// The free-text label of the element set, carried unparsed.
    pub closed spec fn name_spec(&self) -> Seq<char> {
        self.name@
    }

    pub closed spec fn sat_spec(&self) -> Sat {
        self.sat
    }

    pub closed spec fn elements_spec(&self) -> ElementSet {
        self.elements
    }

    pub closed spec fn observer_spec(&self) -> Location {
        self.observer
    }

    pub closed spec fn horizon_spec(&self) -> i64 {
        self.horizon_deg_e6
    }

    pub closed spec fn queried_at_spec(&self) -> Option<JulianTime> {
        self.queried_at
    }

    /// A tracker has a valid observer, and after its first query a valid snapshot.
    pub open spec fn wf(&self) -> bool {
        &&& self.observer_spec().wf()
        &&& -90 * MICRODEGREES <= self.horizon_spec() <= 90 * MICRODEGREES
        &&& (self.queried_at_spec() is Some ==> self.sat_spec().wf())
    }

    /// Whether an assembled query result is taken: a valid observation,
    /// usable crossings, and an orbit number that does not fall behind the
    /// one of an earlier query.
    pub open spec fn accepts(
        &self,
        t: JulianTime,
        aos: Option<JulianTime>,
        los: Option<JulianTime>,
        obs: Option<Observation>,
    ) -> bool {
        &&& obs matches Some(o) && o.wf()
        &&& crossing_ok(aos, t)
        &&& crossing_ok(los, t)
        &&& (self.queried_at_spec() matches Some(q) && q.nanos < t.nanos ==> self.sat_spec().orbit_nr
            <= obs->Some_0.orbit_nr)
    }

    /// Creates a tracker for the satellite that `tle` describes, seen from `location`.
    pub fn new(tle: &Tle, location: Location) -> (r: Result<Predict, PredictError>)
        ensures
            decode(tle.line1@, tle.line2@) is None ==> r == Err::<Predict, _>(
                PredictError::InvalidElementSet,
            ),
            decode(tle.line1@, tle.line2@) is Some && !location.wf() ==> r == Err::<Predict, _>(
                PredictError::InvalidLocation,
            ),
            decode(tle.line1@, tle.line2@) is Some && location.wf() ==> (r matches Ok(p) && p.wf()
                && Some(p.elements_spec()) == decode(tle.line1@, tle.line2@)
                && p.observer_spec() == location && p.sat_spec() == Sat::empty() && p.queried_at_spec()
                is None && p.horizon_spec() == DEFAULT_HORIZON_DEG_E6 && p.name_spec()
                == tle.name@),
    {
        let elements = match tle.elements() {
            Some(e) => e,
            None => {
                return Err(PredictError::InvalidElementSet);
            },
        };
        if !location.is_valid() {
            return Err(PredictError::InvalidLocation);
        }
        let sat = Sat::default();
        Ok(
            Predict {
                name: tle.name.clone(),
                sat,
                elements,
                observer: location,
                queried_at: None,
                horizon_deg_e6: DEFAULT_HORIZON_DEG_E6,
            },
        )
    }

    /// The same tracker, searching crossings of the elevation `horizon_deg_e6`.
    pub fn with_horizon(self, horizon_deg_e6: i64) -> (r: Predict)
        requires
            self.wf(),
            -90 * MICRODEGREES <= horizon_deg_e6 <= 90 * MICRODEGREES,
        ensures
            r.wf(),
            r.horizon_spec() == horizon_deg_e6,
            r.sat_spec() == self.sat_spec(),
            r.name_spec() == self.name_spec(),
            r.elements_spec() == self.elements_spec(),
            r.observer_spec() == self.observer_spec(),
            r.queried_at_spec() == self.queried_at_spec(),
    {
        Predict { horizon_deg_e6, ..self }
    }

    /// The element set's name label.
    pub fn name(&self) -> (r: &str)
        ensures
            r@ == self.name_spec(),
    {
        self.name.as_str()
    }

    /// The elevation at which crossings are searched, in microdegrees.
    pub fn horizon(&self) -> (r: i64)
        ensures
            r == self.horizon_spec(),
    {
        self.horizon_deg_e6
    }

    /// The snapshot of the last query.
    pub fn sat(&self) -> (r: &Sat)
        ensures
            *r == self.sat_spec(),
    {
        &self.sat
    }

    pub fn elements(&self) -> (r: ElementSet)
        ensures
            r == self.elements_spec(),
    {
        self.elements
    }

    pub fn observer(&self) -> (r: Location)
        ensures
            r == self.observer_spec(),
    {
        self.observer
    }

    /// The instant of the last successful query.
    pub fn queried_at(&self) -> (r: Option<JulianTime>)
        ensures
            r == self.queried_at_spec(),
    {
        self.queried_at
    }

    /// Replaces the snapshot with one assembled from the propagator's results
    /// for the instant `t`, or leaves it untouched when they are not usable.
    pub fn apply(
        &mut self,
        t: JulianTime,
        aos: Option<JulianTime>,
        los: Option<JulianTime>,
        obs: Option<Observation>,
    ) -> (r: Result<(), PredictError>)
        requires
            old(self).wf(),
        ensures
            final(self).wf(),
            final(self).elements_spec() == old(self).elements_spec(),
            final(self).observer_spec() == old(self).observer_spec(),
            final(self).name_spec() == old(self).name_spec(),
            final(self).horizon_spec() == old(self).horizon_spec(),
            old(self).accepts(t, aos, los, obs) ==> r is Ok && final(self).queried_at_spec() == Some(t)
                && final(self).sat_spec().observes(obs->Some_0) && reads_as(final(self).sat_spec().aos, aos)
                && reads_as(final(self).sat_spec().los, los),
            !old(self).accepts(t, aos, los, obs) ==> r == Err::<(), _>(
                PredictError::PropagatorFailure,
            ) && *final(self) == *old(self),
    {
        let o = match obs {
            Some(o) => o,
            None => {
                return Err(PredictError::PropagatorFailure);
            },
        };
        if !o.is_valid() || !crossing_usable(aos, t) || !crossing_usable(los, t) {
            return Err(PredictError::PropagatorFailure);
        }
        if let Some(q) = self.queried_at {
            if q.nanos < t.nanos && o.orbit_nr < self.sat.orbit_nr {
                return Err(PredictError::PropagatorFailure);
            }
        }
        let aos_civil = match aos {
            Some(a) => Some(julian_to_unix(a)),
            None => None,
        };
        let los_civil = match los {
            Some(l) => Some(julian_to_unix(l)),
            None => None,
        };
        self.sat = Sat {
            aos: aos_civil,
            los: los_civil,
            az_deg_e6: o.az_deg_e6,
            el_deg_e6: o.el_deg_e6,
            range_mm: o.range_mm,
            range_rate_mm_s: o.range_rate_mm_s,
            lat_deg_e6: o.lat_deg_e6,
            lon_deg_e6: o.lon_deg_e6,
            alt_mm: o.alt_mm,
            vel_mm_s: o.vel_mm_s,
            orbit_nr: o.orbit_nr,
        };
        self.queried_at = Some(t);
        Ok(())
    }

    /// Queries the propagator for the instant `timeoption`, or for the current
    /// wall-clock time when it is `None`, and replaces the snapshot with the result.
    pub fn update<P: Propagator>(&mut self, propagator: &mut P, timeoption: Option<CivilTime>) -> (r:
        Result<(), PredictError>)
        requires
            old(self).wf(),
            timeoption matches Some(t) ==> t.in_field_ranges(),
        ensures
            final(self).wf(),
            final(self).elements_spec() == old(self).elements_spec(),
            final(self).observer_spec() == old(self).observer_spec(),
            final(self).name_spec() == old(self).name_spec(),
            final(self).horizon_spec() == old(self).horizon_spec(),
            r is Ok ==> final(self).queried_at_spec() is Some && final(self).sat_spec().wf(),
            r is Ok && timeoption is Some ==> final(self).queried_at_spec()->Some_0.nanos == julian_nanos(
                timeoption->Some_0,
            ),
            r is Ok ==> (old(self).queried_at_spec() matches Some(q) && q.nanos
                < final(self).queried_at_spec()->Some_0.nanos ==> old(self).sat_spec().orbit_nr
                <= final(self).sat_spec().orbit_nr),
            r is Err ==> r == Err::<(), _>(PredictError::PropagatorFailure) && *final(self) == *old(
                self,
            ),
    {
        let juliantime = match timeoption {
            Some(t) => julian_timestamp(t),
            None => julian_now(),
        };
        let aos = propagator.next_crossing(
            &self.elements,
            &self.observer,
            juliantime,
            self.horizon_deg_e6,
            true,
        );
        let los = propagator.next_crossing(
            &self.elements,
            &self.observer,
            juliantime,
            self.horizon_deg_e6,
            false,
        );
        let obs = propagator.state_at(&self.elements, &self.observer, juliantime);
        self.apply(juliantime, aos, los, obs)
    }
}

/// Rising and setting crossings are independent: on a tracker that has not
/// been queried yet, `apply` takes a valid observation together with any
/// combination of present and absent crossings, each present one after the
/// queried instant and with a civil reading. Its contract then sets each
/// crossing of the snapshot from the reported one alone.
pub proof fn lemma_crossings_independent(
    p: &Predict,
    t: JulianTime,
    aos: Option<JulianTime>,
    los: Option<JulianTime>,
    o: Observation,
)
    requires
        p.wf(),
        p.queried_at_spec() is None,
        o.wf(),
        crossing_ok(aos, t),
        crossing_ok(los, t),
    ensures
        p.accepts(t, aos, los, Some(o)),
{
}

/// Whether a crossing reported for the instant `t` can be used.
pub fn crossing_usable(c: Option<JulianTime>, t: JulianTime) -> (r: bool)
    ensures
        r == crossing_ok(c, t),
{
    match c {
        Some(x) => x.nanos > t.nanos && JULIAN_MIN_NANOS <= x.nanos && x.nanos < JULIAN_END_NANOS,
        None => true,
    }
}

} // verus!
