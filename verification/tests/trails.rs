use mc_adsb::history::{update_history, History};
use mc_adsb::json::Record;
use serde_json::Value;

const SECOND: u128 = 1_000_000_000;

fn record(text: &str) -> Record {
    Record {
        value: serde_json::from_str(text).unwrap(),
    }
}

fn parse(text: &str) -> Value {
    serde_json::from_str(text).unwrap()
}

/// Reports one record and gives back what becomes of it.
fn report(history: &mut History, now_s: u128, text: &str) -> Value {
    let mut aircraft = vec![record(text)];
    update_history(history, &mut aircraft, now_s * SECOND);
    assert_eq!(aircraft.len(), 1);
    aircraft.pop().unwrap().value
}

fn at(lat: f64, lon: f64) -> String {
    format!("{{\"hex\":\"abc123\",\"lat\":{lat:?},\"lon\":{lon:?}}}")
}

#[test]
fn first_report_has_an_empty_history() {
    let mut h = History::new();
    let r = report(&mut h, 0, &at(48.0, 16.0));
    assert_eq!(r, parse("{\"hex\":\"abc123\",\"lat\":48.0,\"lon\":16.0,\"mc_history\":[]}"));
}

#[test]
fn previous_positions_are_pairs_oldest_first() {
    let mut h = History::new();
    report(&mut h, 0, &at(48.2104, 16.3712));
    report(&mut h, 3, &at(48.2099, 16.372));
    report(&mut h, 6, &at(48.209, 16.3729));
    let r = report(&mut h, 9, &at(48.208, 16.3738));
    assert_eq!(
        r["mc_history"],
        parse("[[48.2104,16.3712],[48.2099,16.372],[48.209,16.3729]]")
    );
}

#[test]
fn a_history_holds_at_most_ten_positions() {
    let mut h = History::new();
    for i in 0..12 {
        report(&mut h, i as u128, &at(40.0 + i as f64, 16.0));
    }
    let r = report(&mut h, 12, &at(60.0, 16.0));
    let list = r["mc_history"].as_array().unwrap().clone();
    assert_eq!(list.len(), 10);
    assert_eq!(list[0], parse("[42.0,16.0]"));
    assert_eq!(list[9], parse("[51.0,16.0]"));
}

#[test]
fn a_report_from_the_same_place_adds_nothing() {
    let mut h = History::new();
    report(&mut h, 0, &at(48.0, 16.0));
    report(&mut h, 1, &at(49.0, 16.0));
    let r = report(&mut h, 2, &at(49.0, 16.0));
    assert_eq!(r["mc_history"], parse("[[48.0,16.0]]"));
    let r = report(&mut h, 3, &at(50.0, 16.0));
    assert_eq!(r["mc_history"], parse("[[48.0,16.0],[49.0,16.0]]"));
}

#[test]
fn both_zeros_are_the_same_place() {
    let mut h = History::new();
    report(&mut h, 0, &at(0.0, 16.0));
    let r = report(&mut h, 1, &at(-0.0, 16.0));
    assert_eq!(r["mc_history"], parse("[]"));
}

#[test]
fn a_return_to_an_earlier_place_is_listed() {
    let mut h = History::new();
    report(&mut h, 0, &at(48.0, 16.0));
    report(&mut h, 1, &at(49.0, 16.0));
    let r = report(&mut h, 2, &at(48.0, 16.0));
    assert_eq!(r["mc_history"], parse("[[48.0,16.0],[49.0,16.0]]"));
}

#[test]
fn integer_coordinates_are_sent_as_doubles() {
    let mut h = History::new();
    report(&mut h, 0, "{\"hex\":\"a\",\"lat\":48,\"lon\":-16}");
    let r = report(&mut h, 1, "{\"hex\":\"a\",\"lat\":49,\"lon\":-16}");
    assert_eq!(r["mc_history"].to_string(), "[[48.0,-16.0]]");
    assert_eq!(r["lat"].to_string(), "49");
}

#[test]
fn the_identity_falls_back_to_registration_and_callsign() {
    let mut h = History::new();
    report(&mut h, 0, "{\"hex\":7,\"r\":\"OE-ABC\",\"flight\":\"X\",\"lat\":1.0,\"lon\":2.0}");
    let r = report(&mut h, 1, "{\"flight\":\"OE-ABC  \",\"lat\":3.0,\"lon\":2.0}");
    assert_eq!(r["mc_history"], parse("[[1.0,2.0]]"));
    let r = report(&mut h, 2, "{\"hex\":\" \\t OE-ABC\\n\",\"lat\":4.0,\"lon\":2.0}");
    assert_eq!(r["mc_history"], parse("[[1.0,2.0],[3.0,2.0]]"));
}

/// What a record becomes that no trail is known for.
fn with_empty_history(text: &str) -> Value {
    let mut v = parse(text);
    v.as_object_mut()
        .unwrap()
        .insert("mc_history".to_string(), Value::Array(Vec::new()));
    v
}

#[test]
fn a_blank_address_is_no_identity() {
    let mut h = History::new();
    let text = "{\"hex\":\"   \",\"r\":\"OE-ABC\",\"lat\":1.0,\"lon\":2.0}";
    report(&mut h, 0, text);
    assert_eq!(report(&mut h, 1, &text.replace("1.0", "3.0")), with_empty_history(&text.replace("1.0", "3.0")));
    let r = report(&mut h, 2, "{\"r\":\"OE-ABC\",\"lat\":4.0,\"lon\":2.0}");
    assert_eq!(r["mc_history"], parse("[]"));
}

#[test]
fn every_object_gets_a_history() {
    let mut h = History::new();
    let texts = [
        "{}",
        "{\"lat\":1.0,\"lon\":2.0}",
        "{\"hex\":\"a\",\"lat\":1.0}",
        "{\"hex\":\"a\",\"lat\":\"1.0\",\"lon\":2.0}",
        "{\"hex\":\"a\",\"mc_history\":[1]}",
    ];
    for text in texts {
        assert_eq!(report(&mut h, 0, text), with_empty_history(text));
    }
}

#[test]
fn what_is_not_an_object_passes_through() {
    let mut h = History::new();
    for text in ["[1,2]", "\"text\"", "null", "17", "true"] {
        assert_eq!(report(&mut h, 0, text), parse(text));
    }
}

#[test]
fn a_record_without_position_carries_the_known_trail() {
    let mut h = History::new();
    report(&mut h, 0, &at(48.0, 16.0));
    report(&mut h, 1, &at(49.0, 16.0));
    let r = report(&mut h, 2, "{\"hex\":\"abc123\"}");
    assert_eq!(r, parse("{\"hex\":\"abc123\",\"mc_history\":[[48.0,16.0]]}"));
    let r = report(&mut h, 3, &at(50.0, 16.0));
    assert_eq!(r["mc_history"], parse("[[48.0,16.0],[49.0,16.0]]"));
    let r = report(&mut h, 40, "{\"hex\":\"abc123\"}");
    assert_eq!(r["mc_history"], parse("[]"));
}

#[test]
fn a_stale_trail_is_not_continued() {
    let mut h = History::new();
    report(&mut h, 0, &at(47.0, 16.0));
    report(&mut h, 1, &at(48.0, 16.0));
    let r = report(&mut h, 61, &at(48.5, 16.5));
    assert_eq!(r["mc_history"], parse("[]"));
    let r = report(&mut h, 62, &at(48.6, 16.5));
    assert_eq!(r["mc_history"], parse("[[48.5,16.5]]"));

    let mut h = History::new();
    report(&mut h, 0, &at(48.0, 16.0));
    let r = report(&mut h, 29, &at(48.5, 16.5));
    assert_eq!(r["mc_history"], parse("[[48.0,16.0]]"));
    let r = report(&mut h, 60, &at(48.6, 16.5));
    assert_eq!(r["mc_history"], parse("[]"));
}

#[test]
fn large_integers_are_left_exact() {
    let mut h = History::new();
    let r = report(&mut h, 0, "{\"hex\":\"a\",\"lat\":1.0,\"lon\":2.0,\"n\":9007199254740993}");
    assert_eq!(r["n"].to_string(), "9007199254740993");
}

#[test]
fn other_fields_are_left_alone() {
    let mut h = History::new();
    let r = report(
        &mut h,
        0,
        "{\"hex\":\"a\",\"lat\":1.5,\"lon\":2.5,\"squawk\":\"7000\",\"nav\":{\"x\":[null,true]},\"mc_history\":\"old\"}",
    );
    assert_eq!(
        r,
        parse("{\"hex\":\"a\",\"lat\":1.5,\"lon\":2.5,\"squawk\":\"7000\",\"nav\":{\"x\":[null,true]},\"mc_history\":[]}")
    );
}

#[test]
fn aircraft_do_not_share_trails() {
    let mut h = History::new();
    let mut aircraft = vec![
        record("{\"hex\":\"a\",\"lat\":1.0,\"lon\":1.0}"),
        record("{\"hex\":\"b\",\"lat\":2.0,\"lon\":2.0}"),
    ];
    update_history(&mut h, &mut aircraft, 0);
    let mut aircraft = vec![
        record("{\"hex\":\"b\",\"lat\":2.5,\"lon\":2.0}"),
        record("{\"hex\":\"a\",\"lat\":1.5,\"lon\":1.0}"),
        record("{\"hex\":\"a\",\"lat\":1.75,\"lon\":1.0}"),
    ];
    update_history(&mut h, &mut aircraft, SECOND);
    assert_eq!(aircraft[0].value["mc_history"], parse("[[2.0,2.0]]"));
    assert_eq!(aircraft[1].value["mc_history"], parse("[[1.0,1.0]]"));
    assert_eq!(aircraft[2].value["mc_history"], parse("[[1.0,1.0],[1.5,1.0]]"));
}

#[test]
fn an_unreported_trail_is_kept_for_just_under_thirty_seconds() {
    for (age, expected) in [(30 * SECOND - 1, "[[48.0,16.0]]"), (30 * SECOND, "[]")] {
        let mut h = History::new();
        report(&mut h, 0, &at(48.0, 16.0));
        let mut none: Vec<Record> = Vec::new();
        update_history(&mut h, &mut none, age);
        let mut aircraft = vec![record(&at(49.0, 16.0))];
        update_history(&mut h, &mut aircraft, age);
        assert_eq!(aircraft[0].value["mc_history"], parse(expected));
    }
}

#[test]
fn a_report_continues_a_trail_for_up_to_thirty_seconds() {
    for (age, expected) in [
        (30 * SECOND - 1, "[[48.0,16.0]]"),
        (30 * SECOND, "[[48.0,16.0]]"),
        (30 * SECOND + 1, "[]"),
        (31 * SECOND, "[]"),
    ] {
        let mut h = History::new();
        report(&mut h, 0, &at(48.0, 16.0));
        let mut aircraft = vec![record(&at(49.0, 16.0))];
        update_history(&mut h, &mut aircraft, age);
        assert_eq!(aircraft[0].value["mc_history"], parse(expected));
    }
}

#[test]
fn stale_trails_go_and_others_stay() {
    let mut h = History::new();
    for (i, id) in ["a", "b", "c", "d"].iter().enumerate() {
        let text = format!("{{\"hex\":\"{id}\",\"lat\":1.0,\"lon\":1.0}}");
        report(&mut h, 10 * i as u128, &text);
    }
    // `a` was dropped at 30 s; at 41 s `b` goes too.
    let mut none: Vec<Record> = Vec::new();
    update_history(&mut h, &mut none, 41 * SECOND);
    let mut lens: Vec<usize> = Vec::new();
    for id in ["a", "b", "c", "d"] {
        let text = format!("{{\"hex\":\"{id}\",\"lat\":2.0,\"lon\":1.0}}");
        lens.push(report(&mut h, 42, &text)["mc_history"].as_array().unwrap().len());
    }
    assert_eq!(lens, vec![0, 0, 1, 1]);
}

#[test]
fn a_clock_that_goes_back_drops_nothing() {
    let mut h = History::new();
    report(&mut h, 100, &at(48.0, 16.0));
    let mut none: Vec<Record> = Vec::new();
    update_history(&mut h, &mut none, 0);
    let r = report(&mut h, 101, &at(49.0, 16.0));
    assert_eq!(r["mc_history"], parse("[[48.0,16.0]]"));
}

#[test]
fn a_removed_trail_is_forgotten_and_others_are_kept() {
    let mut h = History::new();
    for id in ["a", "b", "c"] {
        report(&mut h, 0, &format!("{{\"hex\":\"{id}\",\"lat\":1.0,\"lon\":1.0}}"));
    }
    h.remove("a");
    h.remove("missing");
    let mut lens: Vec<usize> = Vec::new();
    for id in ["a", "b", "c"] {
        let text = format!("{{\"hex\":\"{id}\",\"lat\":2.0,\"lon\":1.0}}");
        lens.push(report(&mut h, 1, &text)["mc_history"].as_array().unwrap().len());
    }
    assert_eq!(lens, vec![0, 1, 1]);
}
