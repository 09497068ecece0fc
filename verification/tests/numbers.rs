use mc_adsb::aircraft::{aircraft_id, aircraft_position, altitude_ft};
use mc_adsb::ieee::{float_eq, float_le, float_lt};
use mc_adsb::json::Record;
use mc_adsb::text::{decimal_text, same_text, trim, white_space};

#[test]
fn comparisons_agree_with_doubles() {
    let xs = [
        0.0,
        -0.0,
        1.0,
        -1.0,
        0.5,
        -0.5,
        400.0,
        400.0000001,
        f64::MIN_POSITIVE,
        5e-324,
        -5e-324,
        f64::MAX,
        f64::MIN,
        f64::INFINITY,
        f64::NEG_INFINITY,
        f64::NAN,
        -f64::NAN,
    ];
    for a in xs {
        for b in xs {
            assert_eq!(float_eq(a.to_bits(), b.to_bits()), a == b, "{a} == {b}");
            assert_eq!(float_lt(a.to_bits(), b.to_bits()), a < b, "{a} < {b}");
            assert_eq!(float_le(a.to_bits(), b.to_bits()), a <= b, "{a} <= {b}");
        }
    }
}

#[test]
fn white_space_is_that_of_unicode() {
    for n in 0..=0x10ffffu32 {
        if let Some(c) = char::from_u32(n) {
            assert_eq!(white_space(c), c.is_whitespace(), "{n:x}");
        }
    }
}

#[test]
fn trimming_takes_white_space_off_both_ends() {
    for s in [
        "",
        " ",
        "abc",
        "  abc",
        "abc  ",
        " a b \u{a0}",
        "\u{2003}SIM001\t\n",
        "\u{3000}\u{3000}",
        "é ü",
        " é",
    ] {
        assert_eq!(trim(s), s.trim());
    }
    assert!(same_text("ground", "ground"));
    assert!(!same_text("ground", "Ground"));
}

#[test]
fn decimal_digits() {
    for n in [0u32, 7, 10, 99, 100, 250, 1234567890, u32::MAX] {
        assert_eq!(decimal_text(n), n.to_string());
    }
}

fn record(text: &str) -> Record {
    Record {
        value: serde_json::from_str(text).unwrap(),
    }
}

fn altitude(text: &str) -> f64 {
    f64::from_bits(altitude_ft(&record(text), f64::INFINITY.to_bits()))
}

#[test]
fn altitude_is_barometric_then_geometric() {
    assert_eq!(altitude("{\"alt_baro\":\"ground\",\"alt_geom\":900}"), 0.0);
    assert_eq!(altitude("{\"alt_baro\":350,\"alt_geom\":900}"), 350.0);
    assert_eq!(altitude("{\"alt_baro\":-25.5}"), -25.5);
    assert_eq!(altitude("{\"alt_baro\":\"high\",\"alt_geom\":900}"), 900.0);
    assert_eq!(altitude("{\"alt_baro\":null,\"alt_geom\":900}"), 900.0);
    assert_eq!(altitude("{\"alt_geom\":\"900\"}"), f64::INFINITY);
    assert_eq!(altitude("{}"), f64::INFINITY);
    assert_eq!(altitude("[]"), f64::INFINITY);
}

#[test]
fn positions_carry_the_altitude() {
    let p = aircraft_position(&record("{\"lat\":1,\"lon\":2.5,\"alt_baro\":300}")).unwrap();
    let fix = p.fix();
    assert_eq!(f64::from_bits(fix.lat), 1.0);
    assert_eq!(f64::from_bits(fix.lon), 2.5);
    assert_eq!(f64::from_bits(fix.alt_ft), 300.0);
    let p = aircraft_position(&record("{\"lat\":1,\"lon\":2.5}")).unwrap();
    assert_eq!(p.alt_ft, 0);
    assert!(aircraft_position(&record("{\"lat\":1}")).is_none());
}

#[test]
fn identities_are_trimmed() {
    assert_eq!(aircraft_id(&record("{\"hex\":\" 4401ab \"}")).unwrap(), "4401ab");
    assert_eq!(aircraft_id(&record("{\"flight\":\"AUA12  \"}")).unwrap(), "AUA12");
    assert!(aircraft_id(&record("{\"hex\":\"\",\"r\":\"OE\"}")).is_none());
    assert!(aircraft_id(&record("{}")).is_none());
}

#[test]
fn records_read_and_write_fields() {
    let mut r = Record::object();
    r.set("a", Record::text("x"));
    r.set("b", Record::boolean(true));
    r.set("c", Record::array(vec![Record::zero(), Record::text("y")]));
    r.set("a", Record::text("z"));
    assert_eq!(r.value.to_string(), "{\"a\":\"z\",\"b\":true,\"c\":[0.0,\"y\"]}");
    assert_eq!(r.get_text("a"), Some("z"));
    assert_eq!(r.get_text("b"), None);
    assert_eq!(r.get_number("a"), None);
    let copy = r.duplicate();
    r.set("a", Record::zero());
    assert_eq!(copy.get_text("a"), Some("z"));
    assert_eq!(r.get_number("a"), Some(0));
    assert_eq!(r.get_float("a").unwrap().as_number(), Some(0));
    assert!(r.get_float("b").is_none());
    r.unset("a");
    r.unset("missing");
    assert_eq!(r.value.to_string(), "{\"b\":true,\"c\":[0.0,\"y\"]}");
    let mut text = Record::text("t");
    text.unset("a");
    text.set("a", Record::zero());
    assert_eq!(text.value, "t");
}
