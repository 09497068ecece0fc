use mc_adsb::alert::{
    annotate_aircraft, predict_intrusion, AlertInfo, Known, Measure, Measured, Prediction,
    RestrictedArea,
};
use mc_adsb::json::Record;
use serde_json::Value;

fn area() -> RestrictedArea {
    RestrictedArea {
        lat: 48.2082f64.to_bits(),
        lon: 16.3738f64.to_bits(),
        radius_m: 500.0f64.to_bits(),
        altitude_ft: 400.0f64.to_bits(),
    }
}

fn record(text: &str) -> Record {
    Record {
        value: serde_json::from_str(text).unwrap(),
    }
}

const HORIZON: f64 = 60.0;

fn predict(text: &str, d: Option<f64>, t: Option<f64>, m: Option<f64>) -> Prediction {
    predict_intrusion(
        &record(text),
        &area(),
        HORIZON.to_bits(),
        &Known {
            distance_m: d.map(|x| x.to_bits()),
            closest_s: t.map(|x| x.to_bits()),
            approach_m: m.map(|x| x.to_bits()),
        },
    )
}

fn decided(p: Prediction) -> Option<(f64, f64, bool)> {
    match p {
        Prediction::Decided(None) => None,
        Prediction::Decided(Some(AlertInfo { min_distance_m, eta_s, inside })) => Some((
            f64::from_bits(min_distance_m),
            f64::from_bits(eta_s),
            inside,
        )),
        _ => panic!("not decided"),
    }
}

const FLYING: &str =
    "{\"hex\":\"a\",\"lat\":48.3,\"lon\":16.4,\"alt_baro\":300,\"gs\":90,\"track\":180.5}";

#[test]
fn a_prediction_asks_for_the_distance_first() {
    match predict(FLYING, None, None, None) {
        Prediction::MeasureDistance { lat, lon } => {
            assert_eq!(f64::from_bits(lat), 48.3);
            assert_eq!(f64::from_bits(lon), 16.4);
        }
        _ => panic!("no question"),
    }
}

#[test]
fn then_for_the_time_of_the_closest_approach() {
    match predict(FLYING, Some(10_000.0), None, None) {
        Prediction::ComputeClosest { lat, lon, gs_kt, track_deg } => {
            assert_eq!(f64::from_bits(lat), 48.3);
            assert_eq!(f64::from_bits(lon), 16.4);
            assert_eq!(f64::from_bits(gs_kt), 90.0);
            assert_eq!(f64::from_bits(track_deg), 180.5);
        }
        _ => panic!("no question"),
    }
}

#[test]
fn then_for_the_distance_at_a_time_within_the_horizon() {
    for (t, expected) in [
        (18.5, 18.5),
        (-3.0, 0.0),
        (0.0, 0.0),
        (60.0, 60.0),
        (60.5, 60.0),
        (f64::INFINITY, 60.0),
        (f64::NEG_INFINITY, 0.0),
    ] {
        match predict(FLYING, Some(10_000.0), Some(t), None) {
            Prediction::ComputeApproach { lat, lon, gs_kt, track_deg, after_s } => {
                assert_eq!(f64::from_bits(lat), 48.3);
                assert_eq!(f64::from_bits(lon), 16.4);
                assert_eq!(f64::from_bits(gs_kt), 90.0);
                assert_eq!(f64::from_bits(track_deg), 180.5);
                assert_eq!(f64::from_bits(after_s), expected);
                assert_eq!(expected, t.clamp(0.0, HORIZON));
            }
            _ => panic!("no question"),
        }
    }
}

#[test]
fn an_aircraft_that_stands_inside_is_alerted_at_once() {
    let parked = "{\"lat\":48.2,\"lon\":16.3,\"alt_baro\":\"ground\"}";
    assert_eq!(decided(predict(parked, Some(12.5), None, None)), Some((12.5, 0.0, true)));
    assert_eq!(decided(predict(parked, Some(500.0), None, None)), Some((500.0, 0.0, true)));
}

#[test]
fn an_aircraft_that_moves_inside_is_alerted_by_its_smallest_distance() {
    assert!(matches!(
        predict(FLYING, Some(111.32), None, None),
        Prediction::ComputeClosest { .. }
    ));
    match predict(FLYING, Some(111.32), Some(2.2), None) {
        Prediction::ComputeApproach { after_s, .. } => assert_eq!(f64::from_bits(after_s), 2.2),
        _ => panic!("no question"),
    }
    let p = predict(FLYING, Some(111.32), Some(2.2), Some(0.0));
    assert_eq!(decided(p), Some((0.0, 0.0, true)));
    let p = predict(FLYING, Some(111.32), Some(-2.2), Some(111.4));
    assert_eq!(decided(p), Some((111.32, 0.0, true)));
    let p = predict(FLYING, Some(111.32), Some(f64::NAN), Some(f64::NAN));
    assert_eq!(decided(p), Some((111.32, 0.0, true)));
}

#[test]
fn without_a_horizon_an_aircraft_inside_is_alerted_by_its_distance() {
    for horizon in [-1.0f64, f64::NAN] {
        let p = predict_intrusion(
            &record(FLYING),
            &area(),
            horizon.to_bits(),
            &Known { distance_m: Some(20.0f64.to_bits()), closest_s: None, approach_m: None },
        );
        assert_eq!(decided(p), Some((20.0, 0.0, true)));
    }
}

#[test]
fn an_approach_within_the_radius_is_alerted() {
    let p = predict(FLYING, Some(9000.0), Some(18.5), Some(320.4));
    assert_eq!(decided(p), Some((320.4, 18.5, false)));
    let p = predict(FLYING, Some(9000.0), Some(90.0), Some(320.4));
    assert_eq!(decided(p), Some((320.4, 60.0, false)));
    assert_eq!(decided(predict(FLYING, Some(9000.0), Some(18.5), Some(500.1))), None);
    assert_eq!(decided(predict(FLYING, Some(9000.0), Some(f64::NAN), Some(f64::NAN))), None);
}

#[test]
fn above_the_ceiling_there_is_no_alert() {
    for alt in ["401", "400.5", "35000"] {
        let text = format!("{{\"lat\":48.2,\"lon\":16.3,\"alt_baro\":{alt}}}");
        assert_eq!(decided(predict(&text, Some(0.0), Some(0.0), Some(0.0))), None);
        assert_eq!(decided(predict(&text, None, None, None)), None);
    }
    let at_the_ceiling = "{\"lat\":48.2,\"lon\":16.3,\"alt_baro\":400}";
    assert_eq!(decided(predict(at_the_ceiling, Some(1.0), None, None)), Some((1.0, 0.0, true)));
    let unknown = "{\"lat\":48.2,\"lon\":16.3}";
    assert_eq!(decided(predict(unknown, Some(0.0), None, None)), None);
    let geometric = "{\"lat\":48.2,\"lon\":16.3,\"alt_geom\":100}";
    assert_eq!(decided(predict(geometric, Some(1.0), None, None)), Some((1.0, 0.0, true)));
}

#[test]
fn an_unknown_altitude_is_not_above_an_infinite_ceiling() {
    let mut r = area();
    r.altitude_ft = f64::INFINITY.to_bits();
    let p = predict_intrusion(
        &record("{\"lat\":48.2,\"lon\":16.3}"),
        &r,
        HORIZON.to_bits(),
        &Known { distance_m: Some(1.0f64.to_bits()), closest_s: None, approach_m: None },
    );
    assert_eq!(decided(p), Some((1.0, 0.0, true)));
}

#[test]
fn without_position_there_is_no_alert() {
    assert_eq!(decided(predict("{\"lat\":48.2,\"alt_baro\":0}", Some(0.0), None, None)), None);
    let text = "{\"lat\":null,\"lon\":1,\"alt_baro\":0}";
    assert_eq!(decided(predict(text, None, None, None)), None);
}

#[test]
fn without_velocity_there_is_no_prediction() {
    for rest in ["\"gs\":90", "\"track\":10", "\"gs\":0,\"track\":10", "\"gs\":-3,\"track\":10"] {
        let text = format!("{{\"lat\":48.2,\"lon\":16.3,\"alt_baro\":100,{rest}}}");
        assert_eq!(decided(predict(&text, Some(9000.0), Some(1.0), Some(0.0))), None);
        assert_eq!(decided(predict(&text, Some(9000.0), None, None)), None);
        assert_eq!(decided(predict(&text, Some(9.0), None, None)), Some((9.0, 0.0, true)));
    }
}

fn measure(x: f64) -> Measure {
    Measure {
        bits: x.to_bits(),
        value: Record { value: Value::from(x) },
    }
}

#[test]
fn records_are_annotated_where_there_is_an_alert() {
    let aircraft = vec![
        record(FLYING),
        record("{\"lat\":48.2,\"lon\":16.3,\"alt_baro\":\"ground\"}"),
        record(FLYING),
        record("[]"),
        record(FLYING),
        record(FLYING),
        record(FLYING),
        record("{\"lat\":10.0,\"lon\":0.0,\"alt_baro\":100,\"mc_alert\":{\"inside\":false}}"),
    ];
    let far = |t: f64, d: f64| Measured {
        distance_m: Some(measure(9000.0)),
        closest_s: Some(measure(t)),
        approach_m: Some(measure(d)),
    };
    let measured = vec![
        far(18.5, 320.4),
        Measured { distance_m: Some(measure(7.25)), closest_s: None, approach_m: None },
        far(18.5, 900.0),
        Measured { distance_m: None, closest_s: None, approach_m: None },
        far(75.0, 400.0),
        far(-1.0, 400.0),
        Measured {
            distance_m: Some(measure(111.5)),
            closest_s: Some(measure(2.25)),
            approach_m: Some(measure(0.5)),
        },
        Measured { distance_m: Some(measure(1e6)), closest_s: None, approach_m: None },
    ];
    let out = annotate_aircraft(aircraft, &area(), &measure(HORIZON), measured);
    assert_eq!(out.len(), 8);
    let alert = |i: usize| out[i].value["mc_alert"].to_string();
    assert_eq!(alert(0), "{\"eta_s\":18.5,\"inside\":false,\"min_distance_m\":320.4}");
    assert_eq!(alert(1), "{\"eta_s\":0.0,\"inside\":true,\"min_distance_m\":7.25}");
    assert_eq!(alert(4), "{\"eta_s\":60.0,\"inside\":false,\"min_distance_m\":400.0}");
    assert_eq!(alert(5), "{\"eta_s\":0.0,\"inside\":false,\"min_distance_m\":400.0}");
    assert_eq!(alert(6), "{\"eta_s\":0.0,\"inside\":true,\"min_distance_m\":0.5}");
    assert_eq!(out[7].value.to_string(), "{\"alt_baro\":100,\"lat\":10.0,\"lon\":0.0}");
    assert_eq!(out[0].value["lat"], 48.3);
    assert_eq!(out[2].value, serde_json::from_str::<Value>(FLYING).unwrap());
    assert_eq!(out[3].value.to_string(), "[]");
}

#[test]
fn a_number_that_is_not_finite_is_written_as_null() {
    let mut r = area();
    r.radius_m = f64::INFINITY.to_bits();
    let measured = vec![Measured {
        distance_m: Some(measure(f64::INFINITY)),
        closest_s: None,
        approach_m: None,
    }];
    let out = annotate_aircraft(vec![record("{\"lat\":1.0,\"lon\":2.0,\"alt_baro\":0}")], &r, &measure(HORIZON), measured);
    assert_eq!(
        out[0].value["mc_alert"].to_string(),
        "{\"eta_s\":0.0,\"inside\":true,\"min_distance_m\":null}"
    );
}
