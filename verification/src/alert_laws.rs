//! What is predicted of an aircraft, by the fields of its record.
use crate::aircraft::altitude_of;
use crate::alert::{
    alert_json, prediction, settled, with_alerts, AlertInfo, Known, Measured, Prediction,
    RestrictedArea,
};
use crate::ieee::{is_finite, num_le, num_lt, INFINITY, ZERO};
use crate::json::{double_json, Json};
use vstd::prelude::*;

verus! {

/// An aircraft whose record has no latitude or no longitude, or that is above the ceiling, is not
/// alerted. Of any other the distance is asked for first, from the position in its record.
pub proof fn distance_is_asked_for_at_or_below_the_ceiling(
    ac: Json,
    r: RestrictedArea,
    horizon_s: u64,
    known: Known,
)
    ensures
        ac.number("lat"@) is None || ac.number("lon"@) is None || num_lt(
            r.altitude_ft,
            altitude_of(ac, INFINITY),
        ) ==> prediction(ac, r, horizon_s, known) == Prediction::Decided(None),
        ac.number("lat"@) is Some && ac.number("lon"@) is Some && !num_lt(
            r.altitude_ft,
            altitude_of(ac, INFINITY),
        ) && known.distance_m is None ==> prediction(ac, r, horizon_s, known) == (
        Prediction::MeasureDistance { lat: ac.number("lat"@)->0, lon: ac.number("lon"@)->0 }),
{
}

/// Of an aircraft that is not above the ceiling, has a track and moves, however fast, the closest
/// approach is asked for, from its own position with its own speed and track. Outside the radius
/// that is so for any horizon, inside it for one that is not less than 0.
pub proof fn closest_approach_is_asked_for_if_it_moves(
    ac: Json,
    r: RestrictedArea,
    horizon_s: u64,
    lat: u64,
    lon: u64,
    gs: u64,
    track: u64,
    d: u64,
    early: Option<u64>,
)
    requires
        ac.number("lat"@) == Some(lat),
        ac.number("lon"@) == Some(lon),
        ac.number("gs"@) == Some(gs),
        ac.number("track"@) == Some(track),
        !num_le(gs, ZERO),
        !num_lt(r.altitude_ft, altitude_of(ac, INFINITY)),
        !num_le(d, r.radius_m) || num_le(ZERO, horizon_s),
    ensures
        prediction(
            ac,
            r,
            horizon_s,
            Known { distance_m: Some(d), closest_s: None, approach_m: early },
        ) == (Prediction::ComputeClosest { lat, lon, gs_kt: gs, track_deg: track }),
{
}

/// Once the time of the closest approach is known, the distance is asked for that the same aircraft
/// has then: now if it was closest before, and at the horizon if it would be closest after it.
pub proof fn approach_is_asked_for_within_the_horizon(
    ac: Json,
    r: RestrictedArea,
    horizon_s: u64,
    lat: u64,
    lon: u64,
    gs: u64,
    track: u64,
    d: u64,
    t: u64,
)
    requires
        ac.number("lat"@) == Some(lat),
        ac.number("lon"@) == Some(lon),
        ac.number("gs"@) == Some(gs),
        ac.number("track"@) == Some(track),
        !num_le(gs, ZERO),
        !num_lt(r.altitude_ft, altitude_of(ac, INFINITY)),
        !num_le(d, r.radius_m) || num_le(ZERO, horizon_s),
    ensures
        ({
            let next = prediction(
                ac,
                r,
                horizon_s,
                Known { distance_m: Some(d), closest_s: Some(t), approach_m: None },
            );
            &&& next is ComputeApproach
            &&& next->ComputeApproach_lat == lat
            &&& next->ComputeApproach_lon == lon
            &&& next->ComputeApproach_gs_kt == gs
            &&& next->ComputeApproach_track_deg == track
            &&& num_lt(t, ZERO) ==> next->after_s == ZERO
            &&& !num_lt(t, ZERO) && num_lt(horizon_s, t) ==> next->after_s == horizon_s
            &&& !num_lt(t, ZERO) && !num_lt(horizon_s, t) ==> next->after_s == t
        }),
{
}

/// An aircraft outside the radius that is not above the ceiling, has a track and moves, however
/// fast, is alerted exactly if the approach is within the radius. The alert names the distance of
/// the approach and its time, and says that the aircraft is not inside.
pub proof fn moving_aircraft_is_alerted_by_its_approach(
    ac: Json,
    r: RestrictedArea,
    horizon_s: u64,
    gs: u64,
    track: u64,
    d: u64,
    t: u64,
    m: u64,
)
    requires
        ac.number("lat"@) is Some,
        ac.number("lon"@) is Some,
        ac.number("gs"@) == Some(gs),
        ac.number("track"@) == Some(track),
        !num_le(gs, ZERO),
        !num_lt(r.altitude_ft, altitude_of(ac, INFINITY)),
        !num_le(d, r.radius_m),
    ensures
        ({
            let last = prediction(
                ac,
                r,
                horizon_s,
                Known { distance_m: Some(d), closest_s: Some(t), approach_m: Some(m) },
            );
            &&& !num_le(m, r.radius_m) ==> last == Prediction::Decided(None)
            &&& num_le(m, r.radius_m) ==> (last matches Prediction::Decided(Some(alert)) && {
                &&& !alert.inside
                &&& alert.min_distance_m == m
                &&& num_lt(t, ZERO) ==> alert.eta_s == ZERO
                &&& !num_lt(t, ZERO) && num_lt(horizon_s, t) ==> alert.eta_s == horizon_s
                &&& !num_lt(t, ZERO) && !num_lt(horizon_s, t) ==> alert.eta_s == t
            })
        }),
{
}

/// An aircraft inside the radius that is not above the ceiling is alerted as inside, at time 0. If
/// it has a track and moves, and there is a horizon, the alert names the smaller of its distance
/// and that of its approach; else it names its distance, and nothing more is asked for.
pub proof fn aircraft_inside_is_alerted_at_once(
    ac: Json,
    r: RestrictedArea,
    horizon_s: u64,
    d: u64,
    t: u64,
    m: u64,
    closest_s: Option<u64>,
    approach_m: Option<u64>,
)
    requires
        ac.number("lat"@) is Some,
        ac.number("lon"@) is Some,
        !num_lt(r.altitude_ft, altitude_of(ac, INFINITY)),
        num_le(d, r.radius_m),
    ensures
        ({
            let moves = ac.number("track"@) is Some && (ac.number("gs"@) matches Some(gs)
                && !num_le(gs, ZERO));
            let known = Known { distance_m: Some(d), closest_s: Some(t), approach_m: Some(m) };
            &&& moves && num_le(ZERO, horizon_s) ==> (prediction(ac, r, horizon_s, known) matches
                Prediction::Decided(Some(alert)) && {
                &&& alert.inside
                &&& alert.eta_s == ZERO
                &&& num_le(m, d) ==> alert.min_distance_m == m
                &&& !num_le(m, d) ==> alert.min_distance_m == d
            })
            &&& !moves || !num_le(ZERO, horizon_s) ==> prediction(
                ac,
                r,
                horizon_s,
                Known { distance_m: Some(d), closest_s, approach_m },
            ) == Prediction::Decided(
                Some(AlertInfo { min_distance_m: d, eta_s: ZERO, inside: true }),
            )
        }),
{
}

/// An aircraft outside the radius that has no track, or no speed above 0, is not alerted, and
/// nothing more is asked for.
pub proof fn standing_aircraft_outside_is_not_alerted(
    ac: Json,
    r: RestrictedArea,
    horizon_s: u64,
    d: u64,
    closest_s: Option<u64>,
    approach_m: Option<u64>,
)
    requires
        !num_le(d, r.radius_m),
        ac.number("lat"@) is Some,
        ac.number("lon"@) is Some,
        ac.number("track"@) is None || ac.number("gs"@) is None || num_le(ac.number("gs"@)->0, ZERO),
    ensures
        prediction(
            ac,
            r,
            horizon_s,
            Known { distance_m: Some(d), closest_s, approach_m },
        ) == Prediction::Decided(None),
{
}

/// An alert is written as an object of three fields: the distance and the time as numbers, null
/// where they are not finite, and whether the aircraft is inside as a truth value.
pub proof fn alert_is_written_in_three_fields(alert: AlertInfo, key: Seq<char>)
    ensures
        alert_json(alert) is Object,
        is_finite(alert.min_distance_m) ==> alert_json(alert).field("min_distance_m"@) == Some(
            Json::Number { bits: alert.min_distance_m, exact: None },
        ),
        !is_finite(alert.min_distance_m) ==> alert_json(alert).field("min_distance_m"@) == Some(
            Json::Null,
        ),
        is_finite(alert.eta_s) ==> alert_json(alert).field("eta_s"@) == Some(
            Json::Number { bits: alert.eta_s, exact: None },
        ),
        !is_finite(alert.eta_s) ==> alert_json(alert).field("eta_s"@) == Some(Json::Null),
        alert_json(alert).field("inside"@) == Some(Json::Bool(alert.inside)),
        alert_json(alert).field(key) is Some ==> key == "min_distance_m"@ || key == "eta_s"@ || key
            == "inside"@,
{
    reveal_strlit("min_distance_m");
    reveal_strlit("eta_s");
    reveal_strlit("inside");
    assert("min_distance_m"@.len() == 14 && "eta_s"@.len() == 5 && "inside"@.len() == 6);
}

/// A record of an aircraft that has a position and is alerted says so in `mc_alert`. No other
/// record has that field, also where it came with one, and what is not an object stays as it is.
pub proof fn records_say_who_is_alerted(
    aircraft: Seq<Json>,
    r: RestrictedArea,
    horizon_s: u64,
    measured: Seq<Measured>,
    i: int,
    known: Known,
    alert: AlertInfo,
    key: Seq<char>,
)
    requires
        0 <= i < aircraft.len() == measured.len(),
        known.distance_m is Some <==> measured[i].distance_m is Some,
        known.closest_s is Some <==> measured[i].closest_s is Some,
        known.approach_m is Some <==> measured[i].approach_m is Some,
        known.distance_m is Some ==> known.distance_m->0 == measured[i].distance_m->0.bits,
        known.closest_s is Some ==> known.closest_s->0 == measured[i].closest_s->0.bits,
        known.approach_m is Some ==> known.approach_m->0 == measured[i].approach_m->0.bits,
    ensures
        with_alerts(aircraft, r, horizon_s, measured).len() == aircraft.len(),
        prediction(aircraft[i], r, horizon_s, known) == Prediction::Decided(Some(alert))
            ==> with_alerts(aircraft, r, horizon_s, measured)[i].field("mc_alert"@) == Some(
            alert_json(alert),
        ),
        prediction(aircraft[i], r, horizon_s, known) == Prediction::Decided(None) ==> with_alerts(
            aircraft,
            r,
            horizon_s,
            measured,
        )[i].field("mc_alert"@) is None,
        key != "mc_alert"@ ==> with_alerts(aircraft, r, horizon_s, measured)[i].field(key)
            == aircraft[i].field(key),
        !(aircraft[i] is Object) ==> with_alerts(aircraft, r, horizon_s, measured)[i]
            == aircraft[i],
{
    assert(measured[i].as_known() == known);
}

/// What was measured is accepted if each number is written as it is, and it is enough as soon as
/// the prediction is decided by it, which it is at the latest when all of it is there.
pub proof fn measures_are_accepted_as_they_come(
    ac: Json,
    r: RestrictedArea,
    horizon_s: u64,
    measured: Measured,
    known: Known,
)
    requires
        known.distance_m is Some <==> measured.distance_m is Some,
        known.closest_s is Some <==> measured.closest_s is Some,
        known.approach_m is Some <==> measured.approach_m is Some,
        known.distance_m is Some ==> known.distance_m->0 == measured.distance_m->0.bits,
        known.closest_s is Some ==> known.closest_s->0 == measured.closest_s->0.bits,
        known.approach_m is Some ==> known.approach_m->0 == measured.approach_m->0.bits,
        measured.distance_m matches Some(m) ==> m.value@ == double_json(m.bits),
        measured.closest_s matches Some(m) ==> m.value@ == double_json(m.bits),
        measured.approach_m matches Some(m) ==> m.value@ == double_json(m.bits),
    ensures
        measured.wf(),
        measured.distance_m matches Some(m) ==> m.wf(),
        prediction(ac, r, horizon_s, known) is Decided ==> settled(ac, r, horizon_s, measured),
        known.distance_m is Some && known.closest_s is Some && known.approach_m is Some ==> settled(
            ac,
            r,
            horizon_s,
            measured,
        ),
{
    assert(measured.as_known() == known);
}

} // verus!
