//! What the relay reads of an aircraft record: its identity, its position and its altitude.
use crate::ieee::ZERO;
use crate::json::{float_json, Json, Record};
use crate::text::{same_text, trim, trimmed};
use vstd::prelude::*;

verus! {

/// A reported position: latitude and longitude in degrees, altitude in feet.
#[derive(Clone, Copy)]
pub struct Fix {
    pub lat: u64,
    pub lon: u64,
    pub alt_ft: u64,
}

/// The text that identifies an aircraft, as it stands in the record: the ICAO address, else the
/// registration, else the callsign. A field that is no text counts as missing; one that is blank
/// does not.
pub open spec fn raw_id(ac: Json) -> Option<Seq<char>> {
    if ac.text("hex"@) is Some {
        ac.text("hex"@)
    } else if ac.text("r"@) is Some {
        ac.text("r"@)
    } else {
        ac.text("flight"@)
    }
}

/// The identity of an aircraft: the identifying text without the white space around it. A record
/// whose text is blank has none.
pub open spec fn id_of(ac: Json) -> Option<Seq<char>> {
    match raw_id(ac) {
        Some(s) => if trimmed(s).len() > 0 {
            Some(trimmed(s))
        } else {
            None
        },
        None => None,
    }
}

/// The altitude of an aircraft in feet: 0 on the ground, else the barometric altitude, else the
/// geometric one, else `unknown`.
pub open spec fn altitude_of(ac: Json, unknown: u64) -> u64 {
    if ac.text("alt_baro"@) == Some("ground"@) {
        ZERO
    } else if ac.number("alt_baro"@) is Some {
        ac.number("alt_baro"@)->0
    } else if ac.number("alt_geom"@) is Some {
        ac.number("alt_geom"@)->0
    } else {
        unknown
    }
}

/// Where an aircraft is, if its record says so. An unknown altitude counts as 0.
pub open spec fn fix_of(ac: Json) -> Option<Fix> {
    match (ac.number("lat"@), ac.number("lon"@)) {
        (Some(lat), Some(lon)) => Some(Fix { lat, lon, alt_ft: altitude_of(ac, ZERO) }),
        _ => None,
    }
}

/// The identity and the position of an aircraft that can be followed: one whose record gives
/// both.
pub open spec fn sighting(ac: Json) -> Option<(Seq<char>, Fix)> {
    match (id_of(ac), fix_of(ac)) {
        (Some(id), Some(fix)) => Some((id, fix)),
        _ => None,
    }
}

/// The identity of an aircraft.
pub fn aircraft_id(ac: &Record) -> (r: Option<String>)
    ensures
        match r {
            Some(id) => id_of(ac@) == Some(id@),
            None => id_of(ac@) is None,
        },
{
    let raw = match ac.get_text("hex") {
        Some(s) => Some(s),
        None => match ac.get_text("r") {
            Some(s) => Some(s),
            None => ac.get_text("flight"),
        },
    };
    match raw {
        Some(s) => {
            let id = trim(s);
            if id.as_str().is_empty() {
                None
            } else {
                Some(id)
            }
        },
        None => None,
    }
}

/// The altitude of an aircraft in feet, `unknown` where its record gives none.
pub fn altitude_ft(ac: &Record, unknown: u64) -> (r: u64)
    ensures
        r == altitude_of(ac@, unknown),
{
    if let Some(s) = ac.get_text("alt_baro") {
        if same_text(s, "ground") {
            return ZERO;
        }
    }
    match ac.get_number("alt_baro") {
        Some(alt) => alt,
        None => match ac.get_number("alt_geom") {
            Some(alt) => alt,
            None => unknown,
        },
    }
}

/// A position that was reported: the coordinates as JSON numbers, ready to be sent out, and the
/// altitude in feet.
pub struct Position {
    pub lat: Record,
    pub lon: Record,
    pub alt_ft: u64,
}

impl View for Position {
    type V = Fix;

    open spec fn view(&self) -> Fix {
        Fix { lat: self.lat@->bits, lon: self.lon@->bits, alt_ft: self.alt_ft }
    }
}

impl Position {
    /// The coordinates are doubles.
    pub open spec fn wf(self) -> bool {
        &&& self.lat@ == float_json(self@.lat)
        &&& self.lon@ == float_json(self@.lon)
    }

    /// The position by its bit patterns.
    pub fn fix(&self) -> (r: Fix)
        requires
            self.wf(),
        ensures
            r == self@,
    {
        let lat: u64 = match self.lat.as_number() {
            Some(bits) => bits,
            None => ZERO,
        };
        let lon: u64 = match self.lon.as_number() {
            Some(bits) => bits,
            None => ZERO,
        };
        Fix { lat, lon, alt_ft: self.alt_ft }
    }
}

/// Where an aircraft is.
pub fn aircraft_position(ac: &Record) -> (r: Option<Position>)
    ensures
        match r {
            Some(p) => p.wf() && fix_of(ac@) == Some(p@),
            None => fix_of(ac@) is None,
        },
{
    match (ac.get_float("lat"), ac.get_float("lon")) {
        (Some(lat), Some(lon)) => Some(Position { lat, lon, alt_ft: altitude_ft(ac, ZERO) }),
        _ => None,
    }
}

/// The identity of an aircraft is its ICAO address, without the white space around it; only where
/// there is no such text is it the registration, and only where there is none of that either, the
/// callsign. A blank text is no identity, and none of the others takes its place.
pub proof fn identity_is_the_first_of_three_names(ac: Json, name: Seq<char>)
    requires
        ({
            ||| ac.text("hex"@) == Some(name)
            ||| ac.text("hex"@) is None && ac.text("r"@) == Some(name)
            ||| ac.text("hex"@) is None && ac.text("r"@) is None && ac.text("flight"@) == Some(name)
        }),
    ensures
        trimmed(name).len() > 0 ==> id_of(ac) == Some(trimmed(name)),
        trimmed(name).len() == 0 ==> id_of(ac) is None,
{
}

/// An aircraft without any of the three names has no identity.
pub proof fn nameless_aircraft_has_no_identity(ac: Json)
    requires
        ac.text("hex"@) is None,
        ac.text("r"@) is None,
        ac.text("flight"@) is None,
    ensures
        id_of(ac) is None,
{
}

/// An aircraft whose barometric altitude says "ground" is at 0 ft. One that gives it as a number is
/// at that altitude. Any other is at its geometric altitude, and only without that its altitude is
/// unknown.
pub proof fn altitude_is_barometric_then_geometric(ac: Json, unknown: u64)
    ensures
        ac.field("alt_baro"@) == Some(Json::Text("ground"@)) ==> altitude_of(ac, unknown) == 0,
        ac.field("alt_baro"@) matches Some(Json::Number { bits, .. }) ==> altitude_of(ac, unknown)
            == bits,
        !(ac.field("alt_baro"@) matches Some(Json::Number { .. })) && ac.field("alt_baro"@) != Some(
            Json::Text("ground"@),
        ) ==> {
            &&& ac.field("alt_geom"@) matches Some(Json::Number { bits, .. }) ==> altitude_of(
                ac,
                unknown,
            ) == bits
            &&& !(ac.field("alt_geom"@) matches Some(Json::Number { .. })) ==> altitude_of(
                ac,
                unknown,
            ) == unknown
        },
{
}

/// An aircraft is where the latitude and the longitude in its record say, at its altitude, or at 0
/// where that is unknown. Without one of the two numbers it has no position.
pub proof fn position_is_latitude_and_longitude(ac: Json)
    ensures
        fix_of(ac) is Some <==> ac.number("lat"@) is Some && ac.number("lon"@) is Some,
        fix_of(ac) matches Some(fix) ==> {
            &&& ac.number("lat"@) == Some(fix.lat)
            &&& ac.number("lon"@) == Some(fix.lon)
            &&& fix.alt_ft == altitude_of(ac, 0)
        },
        sighting(ac) is Some <==> id_of(ac) is Some && fix_of(ac) is Some,
        sighting(ac) matches Some((id, fix)) ==> id_of(ac) == Some(id) && fix_of(ac) == Some(fix),
{
}

} // verus!
