use mc_adsb::alert::{Measure, Measured};
use mc_adsb::feed::{on_socket_event, Feed, SocketAction, SocketEvent};
use mc_adsb::history::{update_history, History};
use mc_adsb::json::Record;
use mc_adsb::poll::{gather, make_snapshot, query_url, AdsbResponse, Poller, Settings};
use mc_adsb::sim::{
    simulate, simulated_aircraft, Leg, SimState, Simulation, Timeline, EAST_DEG, SIM_ALT_FT,
    SIM_GS_KT, SIM_PERPENDICULAR_S, SOUTH_DEG,
};
use serde_json::Value;

fn record(text: &str) -> Record {
    Record {
        value: serde_json::from_str(text).unwrap(),
    }
}

fn number(x: f64) -> Record {
    Record { value: Value::from(x) }
}

fn answer(texts: &[&str], now: Option<u64>) -> AdsbResponse {
    AdsbResponse {
        ac: texts.iter().map(|t| record(t)).collect(),
        now,
        total: Some(texts.len() as u64),
    }
}

#[test]
fn failures_back_off_and_success_resets() {
    let mut p = Poller::new(3);
    assert_eq!(p.delay_s(), 3);
    let mut delays: Vec<u64> = Vec::new();
    for _ in 0..7 {
        p.on_fetch(false);
        delays.push(p.delay_s());
    }
    assert_eq!(delays, vec![4, 5, 7, 11, 13, 13, 13]);
    p.on_fetch(true);
    assert_eq!(p.delay_s(), 3);
    p.on_fetch(false);
    assert_eq!(p.delay_s(), 4);
}

#[test]
fn an_interval_of_zero_counts_as_one() {
    assert_eq!(Poller::new(0).delay_s(), 1);
    assert_eq!(Poller::new(1).delay_s(), 1);
    assert_eq!(Poller::new(u64::MAX).delay_s(), u64::MAX);
}

#[test]
fn the_query_names_the_point_and_the_radius() {
    assert_eq!(
        query_url("48.2082", "16.3738", 100),
        "https://api.adsb.lol/v2/lat/48.2082/lon/16.3738/dist/100"
    );
    assert_eq!(
        query_url("-1", "0.5", 0),
        "https://api.adsb.lol/v2/lat/-1/lon/0.5/dist/0"
    );
}

#[test]
fn only_a_failed_poll_without_a_simulation_makes_no_snapshot() {
    let mut h = History::new();
    assert!(gather(None, None, &mut h, 0).is_none());
    assert!(gather(Some(answer(&[], Some(1))), None, &mut h, 0).is_some());
    assert!(gather(Some(answer(&["{}"], None)), None, &mut h, 0).is_some());
    let r = gather(None, Some(record("{}")), &mut h, 0).unwrap();
    assert_eq!(r.ac.len(), 1);
    assert_eq!(r.now, None);
    assert_eq!(r.total, None);
}

#[test]
fn an_empty_answer_makes_an_empty_snapshot() {
    let mut h = History::new();
    let empty = AdsbResponse { ac: Vec::new(), now: None, total: None };
    let r = gather(Some(empty), None, &mut h, 0).unwrap();
    assert!(r.ac.is_empty());
    assert_eq!(r.now, None);
    assert_eq!(r.total, None);
}

#[test]
fn an_outage_ends_a_trail() {
    let a = "{\"hex\":\"a\",\"lat\":1.0,\"lon\":1.0}";
    let b = "{\"hex\":\"a\",\"lat\":2.0,\"lon\":1.0}";
    let mut h = History::new();
    gather(Some(answer(&[a], None)), None, &mut h, 0);
    gather(None, None, &mut h, 20_000_000_000);
    let r = gather(Some(answer(&[b], None)), None, &mut h, 29_000_000_000).unwrap();
    assert_eq!(r.ac[0].value["mc_history"].to_string(), "[[1.0,1.0]]");
    gather(None, None, &mut h, 80_000_000_000);
    let r = gather(Some(answer(&[a], None)), None, &mut h, 89_000_000_000).unwrap();
    assert_eq!(r.ac[0].value["mc_history"].to_string(), "[]");
}

#[test]
fn the_simulated_aircraft_comes_last() {
    let mut h = History::new();
    let r = gather(
        Some(answer(&["{\"hex\":\"a\",\"lat\":1.0,\"lon\":1.0}"], Some(9))),
        Some(record("{\"hex\":\"SIM001\"}")),
        &mut h,
        0,
    )
    .unwrap();
    assert_eq!(r.ac.len(), 2);
    assert_eq!(r.ac[0].value["mc_history"].to_string(), "[]");
    assert_eq!(r.ac[1].value.to_string(), "{\"hex\":\"SIM001\",\"mc_history\":[]}");
    assert_eq!(r.now, Some(9));
    assert_eq!(r.total, Some(1));
}

#[test]
fn a_snapshot_holds_the_settings_and_the_annotated_records() {
    let settings = Settings {
        lat: 48.2082f64.to_bits(),
        lon: 16.3738f64.to_bits(),
        radius_nm: 100,
        restricted_radius_m: 500.0f64.to_bits(),
        restricted_alt_ft: 400.0f64.to_bits(),
    };
    let ac = "{\"hex\":\"a\",\"lat\":48.2,\"lon\":16.3,\"alt_baro\":\"ground\"}";
    let measured = vec![Measured {
        distance_m: Some(Measure { bits: 3.5f64.to_bits(), value: number(3.5) }),
        closest_s: None,
        approach_m: None,
    }];
    let horizon = Measure { bits: 60.0f64.to_bits(), value: number(60.0) };
    let s = make_snapshot(&settings, answer(&[ac], Some(1715680000)), &horizon, measured);
    assert_eq!(f64::from_bits(s.center.lat), 48.2082);
    assert_eq!(f64::from_bits(s.center.lon), 16.3738);
    assert_eq!(s.radius_nm, 100);
    assert_eq!(s.restricted.lat, s.center.lat);
    assert_eq!(s.restricted.lon, s.center.lon);
    assert_eq!(f64::from_bits(s.restricted.radius_m), 500.0);
    assert_eq!(f64::from_bits(s.restricted.altitude_ft), 400.0);
    assert_eq!(s.now, Some(1715680000));
    assert_eq!(s.total, Some(1));
    assert_eq!(s.aircraft[0].value["mc_alert"]["min_distance_m"], 3.5);
}

fn timeline() -> Timeline {
    Timeline {
        turn_end_s: 18.0f64.to_bits(),
        lifetime_s: 80.0f64.to_bits(),
    }
}

fn leg_after(sim: &mut Simulation, t: f64) -> &'static str {
    match sim.advance(t.to_bits(), &timeline()) {
        None => "none",
        Some(Leg::East) => "east",
        Some(Leg::Turn) => "turn",
        Some(Leg::South) => "south",
    }
}

#[test]
fn the_simulation_flies_its_legs_and_ends() {
    let mut sim = Simulation::new();
    let mut h = History::new();
    assert_eq!(leg_after(&mut sim, 0.0), "none");
    assert_eq!(simulate(&mut sim, &mut h, 7), "started");
    assert_eq!(sim.started, Some(7));
    assert_eq!(leg_after(&mut sim, 0.0), "east");
    assert_eq!(leg_after(&mut sim, 2.999), "east");
    assert_eq!(leg_after(&mut sim, 3.0), "turn");
    assert_eq!(leg_after(&mut sim, 17.9), "turn");
    assert_eq!(leg_after(&mut sim, 18.0), "south");
    assert_eq!(leg_after(&mut sim, 80.0), "south");
    assert_eq!(sim.started, Some(7));
    assert_eq!(leg_after(&mut sim, 80.001), "none");
    assert_eq!(sim.started, None);
    assert_eq!(leg_after(&mut sim, 1.0), "none");
    simulate(&mut sim, &mut h, 9);
    assert_eq!(leg_after(&mut sim, 1.0), "east");
}

fn sim_record(lat: f64) -> Record {
    simulated_aircraft(SimState {
        leg: Leg::East,
        lat: number(lat),
        lon: number(16.25),
        alt_ft: number(f64::from_bits(SIM_ALT_FT)),
        gs_kt: number(f64::from_bits(SIM_GS_KT)),
        track_deg: number(f64::from_bits(EAST_DEG)),
    })
}

#[test]
fn the_record_of_the_simulated_aircraft() {
    assert_eq!(
        sim_record(48.5).value,
        serde_json::from_str::<Value>(
            "{\"hex\":\"SIM001\",\"flight\":\"SIM001  \",\"r\":\"SIM001\",\"t\":\"SIMA\",\"lat\":48.5,\"lon\":16.25,\"alt_baro\":200.0,\"gs\":97.19230858946746,\"track\":90.0,\"category\":\"A1\"}"
        )
        .unwrap()
    );
}

#[test]
fn the_constants_of_the_simulated_aircraft() {
    assert_eq!(SIM_ALT_FT, 200.0f64.to_bits());
    assert_eq!(SIM_GS_KT, (50.0f64 / 0.514_444).to_bits());
    assert_eq!(EAST_DEG, 90.0f64.to_bits());
    assert_eq!(SOUTH_DEG, 180.0f64.to_bits());
    assert_eq!(SIM_PERPENDICULAR_S, 3.0f64.to_bits());
}

#[test]
fn a_restarted_simulation_has_no_history() {
    let mut sim = Simulation::new();
    let mut h = History::new();
    let mut aircraft = vec![sim_record(48.5), record("{\"hex\":\"a\",\"lat\":1.0,\"lon\":1.0}")];
    update_history(&mut h, &mut aircraft, 0);
    simulate(&mut sim, &mut h, 1);
    let mut aircraft = vec![sim_record(48.0), record("{\"hex\":\"a\",\"lat\":2.0,\"lon\":1.0}")];
    update_history(&mut h, &mut aircraft, 2);
    assert_eq!(aircraft[0].value["mc_history"].to_string(), "[]");
    assert_eq!(aircraft[1].value["mc_history"].to_string(), "[[1.0,1.0]]");
}

#[test]
fn requests_get_the_newest_snapshot() {
    let mut feed = Feed::new();
    let r = feed.snapshot();
    assert_eq!(r.status, 503);
    assert_eq!(r.content_type, None);
    assert_eq!(r.body, "no snapshot available yet");
    assert!(matches!(feed.on_connect(), SocketAction::Wait));

    assert_eq!(feed.publish("{\"n\":1}".to_string()), "{\"n\":1}");
    assert_eq!(feed.publish("{\"n\":2}".to_string()), "{\"n\":2}");
    let r = feed.snapshot();
    assert_eq!(r.status, 200);
    assert_eq!(r.content_type, Some("application/json"));
    assert_eq!(r.body, "{\"n\":2}");
    match feed.on_connect() {
        SocketAction::Send(text) => assert_eq!(text, "{\"n\":2}"),
        _ => panic!("nothing sent"),
    }
}

#[test]
fn a_connection_ends_when_a_direction_ends() {
    match on_socket_event(SocketEvent::Published("s".to_string())) {
        SocketAction::Send(text) => assert_eq!(text, "s"),
        _ => panic!("nothing sent"),
    }
    assert!(matches!(on_socket_event(SocketEvent::Sent), SocketAction::Wait));
    assert!(matches!(on_socket_event(SocketEvent::ClientMessage), SocketAction::Wait));
    assert!(matches!(on_socket_event(SocketEvent::FeedEnded), SocketAction::Close));
    assert!(matches!(on_socket_event(SocketEvent::SendFailed), SocketAction::Close));
    assert!(matches!(on_socket_event(SocketEvent::ClientClosed), SocketAction::Close));
    assert!(matches!(on_socket_event(SocketEvent::ClientFailed), SocketAction::Close));
}

#[test]
fn a_record_goes_through_with_its_trail_and_its_alert() {
    let settings = Settings {
        lat: 48.0f64.to_bits(),
        lon: 16.0f64.to_bits(),
        radius_nm: 50,
        restricted_radius_m: 500.0f64.to_bits(),
        restricted_alt_ft: 400.0f64.to_bits(),
    };
    let horizon = Measure { bits: 60.0f64.to_bits(), value: number(60.0) };
    let before = "{\"hex\":\"a\",\"lat\":48.1,\"lon\":16.0,\"alt_baro\":300,\"gs\":80,\"track\":180}";
    let after = "{\"hex\":\"a\",\"lat\":48.05,\"lon\":16.0,\"alt_baro\":300,\"gs\":80,\"track\":180,\"squawk\":\"7000\"}";
    let mut h = History::new();
    gather(Some(answer(&[before], Some(1))), None, &mut h, 0);
    let gathered = gather(Some(answer(&[after, "{\"lat\":1}"], Some(2))), None, &mut h, 3_000_000_000).unwrap();
    let measured = vec![
        Measured {
            distance_m: Some(Measure { bits: 5566.0f64.to_bits(), value: number(5566.0) }),
            closest_s: Some(Measure { bits: 45.5f64.to_bits(), value: number(45.5) }),
            approach_m: Some(Measure { bits: 0.25f64.to_bits(), value: number(0.25) }),
        },
        Measured { distance_m: None, closest_s: None, approach_m: None },
    ];
    let s = make_snapshot(&settings, gathered, &horizon, measured);
    assert_eq!(
        s.aircraft[0].value,
        serde_json::from_str::<Value>(
            "{\"hex\":\"a\",\"lat\":48.05,\"lon\":16.0,\"alt_baro\":300,\"gs\":80,\"track\":180,\"squawk\":\"7000\",\"mc_history\":[[48.1,16.0]],\"mc_alert\":{\"min_distance_m\":0.25,\"eta_s\":45.5,\"inside\":false}}"
        )
        .unwrap()
    );
    assert_eq!(s.aircraft[1].value.to_string(), "{\"lat\":1,\"mc_history\":[]}");
    assert_eq!(s.now, Some(2));
}

#[test]
fn a_restarted_simulation_is_back_at_its_start() {
    let mut sim = Simulation::new();
    let mut h = History::new();
    assert_eq!(sim.elapsed_ns(5), None);
    simulate(&mut sim, &mut h, 100);
    assert_eq!(sim.elapsed_ns(100), Some(0));
    assert_eq!(sim.elapsed_ns(170), Some(70));
    assert_eq!(sim.elapsed_ns(99), Some(0));
    simulate(&mut sim, &mut h, 170);
    assert_eq!(sim.elapsed_ns(170), Some(0));
    assert_eq!(leg_after(&mut sim, 0.0), "east");
}

#[test]
fn a_session_sends_the_newest_and_then_every_snapshot() {
    let mut feed = Feed::new();
    feed.publish("one".to_string());
    feed.publish("two".to_string());
    let mut texts: Vec<String> = Vec::new();
    if let SocketAction::Send(text) = feed.on_connect() {
        texts.push(text);
    }
    let events = vec![
        SocketEvent::Sent,
        SocketEvent::Published("three".to_string()),
        SocketEvent::Sent,
        SocketEvent::ClientMessage,
        SocketEvent::Published("four".to_string()),
        SocketEvent::ClientClosed,
        SocketEvent::Published("five".to_string()),
    ];
    for event in events {
        match on_socket_event(event) {
            SocketAction::Send(text) => texts.push(text),
            SocketAction::Wait => {}
            SocketAction::Close => break,
        }
    }
    assert_eq!(texts, vec!["two", "three", "four"]);
}
