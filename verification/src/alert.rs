//! Which aircraft are about to enter the restricted area, and how a record says so.
use crate::aircraft::{altitude_ft, altitude_of, fix_of};
use crate::ieee::{float_le, float_lt, is_nan, num_le, num_lt, INFINITY, ZERO};
use crate::json::{documents, double_json, set_changes_one_field, unset_changes_one_field, Json, Record};
use vstd::prelude::*;

verus! {

/// The restricted area: a cylinder on the ground. All numbers are bit patterns of doubles.
#[derive(Clone, Copy)]
pub struct RestrictedArea {
    pub lat: u64,
    pub lon: u64,
    pub radius_m: u64,
    pub altitude_ft: u64,
}

/// An alert. All numbers are bit patterns of doubles.
#[derive(Clone, Copy)]
pub struct AlertInfo {
    /// The smallest predicted distance from the centre of the restricted area, in metres.
    pub min_distance_m: u64,
    /// Seconds until the aircraft is that close; 0 if it is inside already.
    pub eta_s: u64,
    /// Whether the aircraft is inside the restricted area now.
    pub inside: bool,
}

/// What is known of an aircraft so far, by bit patterns. Each number is asked for once the ones
/// before it are known.
#[derive(Clone, Copy)]
pub struct Known {
    /// Its distance from the centre of the restricted area, in metres.
    pub distance_m: Option<u64>,
    /// In how many seconds it is closest to the centre if it flies on as it does. Less than 0 if
    /// it was closest before.
    pub closest_s: Option<u64>,
    /// How far from the centre it is at that time, or at the nearest time within the prediction
    /// horizon, in metres.
    pub approach_m: Option<u64>,
}

/// How far a prediction has come.
#[derive(Clone, Copy)]
pub enum Prediction {
    /// The aircraft is to be alerted, or not.
    Decided(Option<AlertInfo>),
    /// The distance of this position from the centre has to be measured first.
    MeasureDistance { lat: u64, lon: u64 },
    /// The time of the closest approach from this position has to be computed first, with this
    /// ground speed in knots and this track in degrees.
    ComputeClosest { lat: u64, lon: u64, gs_kt: u64, track_deg: u64 },
    /// The distance from the centre has to be computed first that the aircraft has after so many
    /// seconds.
    ComputeApproach { lat: u64, lon: u64, gs_kt: u64, track_deg: u64, after_s: u64 },
}

/// Whether the aircraft is checked at all: its position is known, and its altitude is not above
/// the ceiling. An unknown altitude is above every finite ceiling.
pub open spec fn watched(ac: Json, r: RestrictedArea) -> bool {
    fix_of(ac) is Some && !num_lt(r.altitude_ft, altitude_of(ac, INFINITY))
}

/// The ground speed and the track of an aircraft that moves.
pub open spec fn velocity(ac: Json) -> Option<(u64, u64)> {
    match (ac.number("gs"@), ac.number("track"@)) {
        (Some(gs), Some(track)) if !num_le(gs, ZERO) => Some((gs, track)),
        _ => None,
    }
}

/// The time within the prediction horizon that is nearest to `t`.
pub open spec fn within_horizon(t: u64, horizon_s: u64) -> u64 {
    if num_lt(t, ZERO) {
        ZERO
    } else if num_lt(horizon_s, t) {
        horizon_s
    } else {
        t
    }
}

/// The smaller of two distances. What is not a number does not count.
pub open spec fn smaller(a: u64, b: u64) -> u64 {
    if num_le(a, b) {
        a
    } else {
        b
    }
}

/// The decision on an aircraft that is at distance `d` and, if it moves, comes to distance `m`
/// after `eta_s` seconds.
pub open spec fn decision(r: RestrictedArea, d: u64, m: Option<u64>, eta_s: u64) -> Option<
    AlertInfo,
> {
    if num_le(d, r.radius_m) {
        Some(
            AlertInfo {
                min_distance_m: match m {
                    Some(m) => smaller(m, d),
                    None => d,
                },
                eta_s: ZERO,
                inside: true,
            },
        )
    } else {
        match m {
            Some(m) if num_le(m, r.radius_m) => Some(
                AlertInfo { min_distance_m: m, eta_s, inside: false },
            ),
            _ => None,
        }
    }
}

/// Whether the path of an aircraft at distance `d` is looked at: it moves, and there is a horizon
/// up to which to look. An aircraft that is inside already does not need one.
pub open spec fn looks_ahead(ac: Json, r: RestrictedArea, horizon_s: u64, d: u64) -> bool {
    velocity(ac) is Some && (!num_le(d, r.radius_m) || num_le(ZERO, horizon_s))
}

/// What is to be done about an aircraft, by what is known of it so far.
pub open spec fn prediction(
    ac: Json,
    r: RestrictedArea,
    horizon_s: u64,
    known: Known,
) -> Prediction {
    if !watched(ac, r) {
        Prediction::Decided(None)
    } else {
        let lat = fix_of(ac)->0.lat;
        let lon = fix_of(ac)->0.lon;
        match known.distance_m {
            None => Prediction::MeasureDistance { lat, lon },
            Some(d) => if !looks_ahead(ac, r, horizon_s, d) {
                Prediction::Decided(decision(r, d, None, ZERO))
            } else {
                let (gs_kt, track_deg) = velocity(ac)->0;
                match (known.closest_s, known.approach_m) {
                    (None, _) => Prediction::ComputeClosest { lat, lon, gs_kt, track_deg },
                    (Some(t), None) => Prediction::ComputeApproach {
                        lat,
                        lon,
                        gs_kt,
                        track_deg,
                        after_s: within_horizon(t, horizon_s),
                    },
                    (Some(t), Some(m)) => Prediction::Decided(
                        decision(r, d, Some(m), within_horizon(t, horizon_s)),
                    ),
                }
            },
        }
    }
}

/// Decides whether an aircraft is predicted to enter the restricted area within `horizon_s`
/// seconds, or tells what has to be known before that can be decided.
pub fn predict_intrusion(
    ac: &Record,
    r: &RestrictedArea,
    horizon_s: u64,
    known: &Known,
) -> (res: Prediction)
    requires
        known.closest_s is Some ==> num_le(ZERO, horizon_s),
    ensures
        res == prediction(ac@, *r, horizon_s, *known),
{
    let (lat, lon) = match (ac.get_number("lat"), ac.get_number("lon")) {
        (Some(lat), Some(lon)) => (lat, lon),
        _ => return Prediction::Decided(None),
    };
    if float_lt(r.altitude_ft, altitude_ft(ac, INFINITY)) {
        return Prediction::Decided(None);
    }
    let d: u64 = match known.distance_m {
        Some(d) => d,
        None => return Prediction::MeasureDistance { lat, lon },
    };
    let inside: bool = float_le(d, r.radius_m);
    let standing: Option<AlertInfo> = if inside {
        Some(AlertInfo { min_distance_m: d, eta_s: ZERO, inside: true })
    } else {
        None
    };
    if inside && !float_le(ZERO, horizon_s) {
        return Prediction::Decided(standing);
    }
    let gs_kt: u64 = match ac.get_number("gs") {
        Some(gs) => gs,
        None => ZERO,
    };
    let track_deg: u64 = match ac.get_number("track") {
        Some(track) => track,
        None => return Prediction::Decided(standing),
    };
    if float_le(gs_kt, ZERO) {
        return Prediction::Decided(standing);
    }
    let t: u64 = match known.closest_s {
        Some(t) => t,
        None => return Prediction::ComputeClosest { lat, lon, gs_kt, track_deg },
    };
    let after_s: u64 = if float_lt(t, ZERO) {
        ZERO
    } else if float_lt(horizon_s, t) {
        horizon_s
    } else {
        t
    };
    let m: u64 = match known.approach_m {
        Some(m) => m,
        None => return Prediction::ComputeApproach { lat, lon, gs_kt, track_deg, after_s },
    };
    if inside {
        let min_distance_m: u64 = if float_le(m, d) {
            m
        } else {
            d
        };
        Prediction::Decided(Some(AlertInfo { min_distance_m, eta_s: ZERO, inside: true }))
    } else if float_le(m, r.radius_m) {
        Prediction::Decided(Some(AlertInfo { min_distance_m: m, eta_s: after_s, inside: false }))
    } else {
        Prediction::Decided(None)
    }
}

/// A double that was computed outside the proofs, by its bit pattern and as it is written.
pub struct Measure {
    pub bits: u64,
    pub value: Record,
}

impl Measure {
    /// Both are the same number.
    pub open spec fn wf(self) -> bool {
        self.value@ == double_json(self.bits)
    }
}

/// What was measured of one aircraft, as far as its prediction asked for it.
pub struct Measured {
    pub distance_m: Option<Measure>,
    pub closest_s: Option<Measure>,
    pub approach_m: Option<Measure>,
}

/// A measured number by its bit pattern.
pub open spec fn bits_of(m: Option<Measure>) -> Option<u64> {
    match m {
        Some(x) => Some(x.bits),
        None => None,
    }
}

fn measure_bits(m: &Option<Measure>) -> (r: Option<u64>)
    ensures
        r == bits_of(*m),
{
    match m {
        Some(x) => Some(x.bits),
        None => None,
    }
}

impl Measured {
    /// Every number is written as it is.
    pub open spec fn wf(self) -> bool {
        &&& self.distance_m matches Some(m) ==> m.wf()
        &&& self.closest_s matches Some(m) ==> m.wf()
        &&& self.approach_m matches Some(m) ==> m.wf()
    }

    /// What is known by this.
    pub open spec fn as_known(self) -> Known {
        Known {
            distance_m: bits_of(self.distance_m),
            closest_s: bits_of(self.closest_s),
            approach_m: bits_of(self.approach_m),
        }
    }

    /// What is known by this.
    pub fn known(&self) -> (r: Known)
        ensures
            r == self.as_known(),
    {
        Known {
            distance_m: measure_bits(&self.distance_m),
            closest_s: measure_bits(&self.closest_s),
            approach_m: measure_bits(&self.approach_m),
        }
    }
}

/// An alert as it stands in a record.
pub open spec fn alert_json(alert: AlertInfo) -> Json {
    Json::Object(
        map![
            "min_distance_m"@ => double_json(alert.min_distance_m),
            "eta_s"@ => double_json(alert.eta_s),
            "inside"@ => Json::Bool(alert.inside),
        ],
    )
}

/// The record with its alert, if what was measured makes one. A record without an alert has no
/// such field, also where it came with one.
pub open spec fn with_alert(ac: Json, r: RestrictedArea, horizon_s: u64, m: Measured) -> Json {
    match prediction(ac, r, horizon_s, m.as_known()) {
        Prediction::Decided(Some(alert)) => ac.with("mc_alert"@, alert_json(alert)),
        _ => ac.without("mc_alert"@),
    }
}

/// The records with their alerts.
pub open spec fn with_alerts(
    aircraft: Seq<Json>,
    r: RestrictedArea,
    horizon_s: u64,
    measured: Seq<Measured>,
) -> Seq<Json> {
    Seq::new(aircraft.len(), |i: int| with_alert(aircraft[i], r, horizon_s, measured[i]))
}

fn alert_record(min_distance_m: Record, eta_s: Record, inside: bool) -> (rec: Record)
    ensures
        rec@ == Json::Object(
            map![
                "min_distance_m"@ => min_distance_m@,
                "eta_s"@ => eta_s@,
                "inside"@ => Json::Bool(inside),
            ],
        ),
{
    let mut rec = Record::object();
    rec.set("min_distance_m", min_distance_m);
    rec.set("eta_s", eta_s);
    rec.set("inside", Record::boolean(inside));
    rec
}

/// Whether enough was measured of an aircraft to decide on it.
pub open spec fn settled(ac: Json, r: RestrictedArea, horizon_s: u64, m: Measured) -> bool {
    prediction(ac, r, horizon_s, m.as_known()) is Decided
}

/// Sets `mc_alert` in the record of an aircraft that is predicted to enter the restricted area,
/// and takes it out of any other.
fn annotate(ac: &mut Record, r: &RestrictedArea, horizon: &Measure, m: Measured)
    requires
        horizon.wf(),
        m.wf(),
        m.closest_s is Some ==> num_le(ZERO, horizon.bits),
        settled(old(ac)@, *r, horizon.bits, m),
    ensures
        final(ac)@ == with_alert(old(ac)@, *r, horizon.bits, m),
{
    let known = m.known();
    let alert = match predict_intrusion(ac, r, horizon.bits, &known) {
        Prediction::Decided(Some(alert)) => alert,
        _ => {
            ac.unset("mc_alert");
            return;
        },
    };
    match (m.distance_m, m.closest_s, m.approach_m) {
        (Some(d), Some(t), Some(a)) => {
            let distance = if alert.min_distance_m == a.bits {
                a.value
            } else {
                d.value
            };
            let eta = if alert.inside || float_lt(t.bits, ZERO) {
                Record::zero()
            } else if float_lt(horizon.bits, t.bits) {
                horizon.value.duplicate()
            } else {
                t.value
            };
            ac.set("mc_alert", alert_record(distance, eta, alert.inside));
        },
        (Some(d), _, _) => {
            ac.set("mc_alert", alert_record(d.value, Record::zero(), alert.inside));
        },
        _ => {},
    }
}

/// Sets `mc_alert` in the record of each aircraft that is predicted to enter the restricted area
/// within the prediction horizon, by what was measured of each, and takes it out of any other.
pub fn annotate_aircraft(
    aircraft: Vec<Record>,
    r: &RestrictedArea,
    horizon: &Measure,
    measured: Vec<Measured>,
) -> (res: Vec<Record>)
    requires
        horizon.wf(),
        aircraft@.len() == measured@.len(),
        forall|i: int|
            0 <= i < measured@.len() ==> (#[trigger] measured@[i]).wf() && (measured@[i].closest_s
                is Some ==> num_le(ZERO, horizon.bits)) && settled(
                documents(aircraft@)[i],
                *r,
                horizon.bits,
                measured@[i],
            ),
    ensures
        documents(res@) == with_alerts(documents(aircraft@), *r, horizon.bits, measured@),
{
    let ghost given = measured@;
    let ghost all = documents(aircraft@);
    let mut res = aircraft;
    let mut rest = measured;
    while rest.len() > 0
        invariant
            horizon.wf(),
            res@.len() == given.len() == all.len(),
            rest@.len() <= given.len(),
            rest@ =~= given.take(rest@.len() as int),
            forall|j: int|
                0 <= j < given.len() ==> (#[trigger] given[j]).wf() && (given[j].closest_s is Some
                    ==> num_le(ZERO, horizon.bits)) && settled(all[j], *r, horizon.bits, given[j]),
            forall|j: int| 0 <= j < rest@.len() ==> (#[trigger] res@[j])@ == all[j],
            forall|j: int|
                rest@.len() <= j < res@.len() ==> (#[trigger] res@[j])@ == with_alert(
                    all[j],
                    *r,
                    horizon.bits,
                    given[j],
                ),
        decreases rest.len(),
    {
        let i: usize = rest.len() - 1;
        if let Some(m) = rest.pop() {
            assert(m == given[i as int]);
            annotate(&mut res[i], r, horizon, m);
        }
    }
    assert(documents(res@) =~= with_alerts(all, *r, horizon.bits, given));
    res
}

/// What is known once nothing more has to be asked for.
pub open spec fn fully_known(distance_m: u64, closest_s: u64, approach_m: u64) -> Known {
    Known {
        distance_m: Some(distance_m),
        closest_s: Some(closest_s),
        approach_m: Some(approach_m),
    }
}

/// A prediction ends: once all is known it is decided, and what was decided before stays decided.
pub proof fn prediction_ends(
    ac: Json,
    r: RestrictedArea,
    horizon_s: u64,
    d: u64,
    t: u64,
    m: u64,
    early: Known,
)
    requires
        early.distance_m is None || early.distance_m == Some(d),
        early.closest_s is None || early.closest_s == Some(t),
        early.approach_m is None || early.approach_m == Some(m),
    ensures
        prediction(ac, r, horizon_s, fully_known(d, t, m)) is Decided,
        prediction(ac, r, horizon_s, early) is Decided ==> prediction(ac, r, horizon_s, early)
            == prediction(ac, r, horizon_s, fully_known(d, t, m)),
{
}

/// An aircraft is alerted exactly if its position is known, it is not above the ceiling, and it is
/// inside the radius now or comes inside it within the horizon as it flies on.
pub proof fn alerted_exactly_if_intruding(
    ac: Json,
    r: RestrictedArea,
    horizon_s: u64,
    d: u64,
    t: u64,
    m: u64,
)
    ensures
        prediction(ac, r, horizon_s, fully_known(d, t, m)) != Prediction::Decided(None) <==> (
        watched(ac, r) && (num_le(d, r.radius_m) || velocity(ac) is Some && num_le(m, r.radius_m))),
{
}

/// An alert names a distance within the radius. It says `inside` exactly if the aircraft is within
/// the radius now; the time that it names is then 0, and the distance is no larger than the current
/// one, nor than that of the approach if the path is looked at. Otherwise it names the distance of
/// the approach.
pub proof fn alert_is_within_the_radius(
    ac: Json,
    r: RestrictedArea,
    horizon_s: u64,
    d: u64,
    t: u64,
    m: u64,
)
    ensures
        prediction(ac, r, horizon_s, fully_known(d, t, m)) matches Prediction::Decided(Some(alert))
            ==> {
            &&& num_le(alert.min_distance_m, r.radius_m)
            &&& alert.inside <==> num_le(d, r.radius_m)
            &&& alert.inside ==> alert.eta_s == ZERO && num_le(alert.min_distance_m, d)
            &&& alert.inside && looks_ahead(ac, r, horizon_s, d) && !is_nan(m) ==> num_le(
                alert.min_distance_m,
                m,
            )
            &&& alert.min_distance_m == d || alert.min_distance_m == m
            &&& !alert.inside ==> alert.min_distance_m == m
        },
{
}

/// The time that an alert names is within the prediction horizon, and where the closest approach
/// is within the horizon itself, it is the time of the closest approach.
pub proof fn alert_is_within_the_horizon(
    ac: Json,
    r: RestrictedArea,
    horizon_s: u64,
    d: u64,
    t: u64,
    m: u64,
)
    requires
        num_le(ZERO, horizon_s),
        !is_nan(t),
    ensures
        prediction(ac, r, horizon_s, fully_known(d, t, m)) matches Prediction::Decided(Some(alert))
            ==> {
            &&& num_le(ZERO, alert.eta_s)
            &&& num_le(alert.eta_s, horizon_s)
            &&& !alert.inside && num_le(ZERO, t) && num_le(t, horizon_s) ==> alert.eta_s == t
        },
{
}

/// An aircraft above the ceiling is never alerted, whatever is known of it.
pub proof fn above_the_ceiling_no_alert(
    ac: Json,
    r: RestrictedArea,
    horizon_s: u64,
    known: Known,
)
    requires
        num_lt(r.altitude_ft, altitude_of(ac, INFINITY)),
    ensures
        prediction(ac, r, horizon_s, known) == Prediction::Decided(None),
{
}

/// An aircraft without a ground speed above 0 or without a track is alerted exactly if it is inside
/// already, by its current distance.
pub proof fn without_velocity_only_inside(
    ac: Json,
    r: RestrictedArea,
    horizon_s: u64,
    known: Known,
)
    requires
        watched(ac, r),
        ac.number("track"@) is None || ac.number("gs"@) is None || num_le(ac.number("gs"@)->0, ZERO),
        known.distance_m is Some,
    ensures
        prediction(ac, r, horizon_s, known) == Prediction::Decided(
            if num_le(known.distance_m->0, r.radius_m) {
                Some(
                    AlertInfo { min_distance_m: known.distance_m->0, eta_s: ZERO, inside: true },
                )
            } else {
                None
            },
        ),
{
}

/// Alerts leave the records alone but for `mc_alert`, which a record has exactly if an alert is
/// decided on for it: no record is added, dropped or moved, and no other field changes.
pub proof fn alerts_change_nothing_else(
    aircraft: Seq<Json>,
    r: RestrictedArea,
    horizon_s: u64,
    measured: Seq<Measured>,
    i: int,
    key: Seq<char>,
)
    requires
        0 <= i < aircraft.len() == measured.len(),
    ensures
        with_alerts(aircraft, r, horizon_s, measured).len() == aircraft.len(),
        key != "mc_alert"@ ==> with_alerts(aircraft, r, horizon_s, measured)[i].field(key)
            == aircraft[i].field(key),
        with_alerts(aircraft, r, horizon_s, measured)[i].field("mc_alert"@) == match prediction(
            aircraft[i],
            r,
            horizon_s,
            measured[i].as_known(),
        ) {
            Prediction::Decided(Some(alert)) => Some(alert_json(alert)),
            _ => None,
        },
{
    match prediction(aircraft[i], r, horizon_s, measured[i].as_known()) {
        Prediction::Decided(Some(alert)) => {
            set_changes_one_field(aircraft[i], "mc_alert"@, alert_json(alert), key);
        },
        _ => {
            unset_changes_one_field(aircraft[i], "mc_alert"@, key);
        },
    }
}

} // verus!
