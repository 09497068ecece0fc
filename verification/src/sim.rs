//! The simulated aircraft: when it flies, which leg it is on, and the record that it sends.
use crate::aircraft::{id_of, sighting};
use crate::history::{history_json, observed, History, Trails};
use crate::ieee::{float_lt, num_le, num_lt, ZERO};
use crate::json::{float_json, Json, Record};
use crate::text::{trim_end, trim_start};
use vstd::prelude::*;

verus! {

/// The identity of the simulated aircraft.
pub const SIM_ID: &'static str = "SIM001";

/// Its callsign, padded as callsigns are.
pub const SIM_FLIGHT: &'static str = "SIM001  ";

/// Its altitude, 200 ft, by bit pattern.
pub const SIM_ALT_FT: u64 = 0x4069_0000_0000_0000;

/// Its ground speed in knots, 50 / 0.514444, by bit pattern: 50 metres per second.
pub const SIM_GS_KT: u64 = 0x4058_4c4e_c8af_a02b;

/// The track to the east, 90 degrees, by bit pattern.
pub const EAST_DEG: u64 = 0x4056_8000_0000_0000;

/// The track to the south, 180 degrees, by bit pattern.
pub const SOUTH_DEG: u64 = 0x4066_8000_0000_0000;

/// Whether the simulation runs: when it was started, in nanoseconds on the relay's clock.
pub struct Simulation {
    pub started: Option<u128>,
}

/// How long it flies east before the turn, 3 seconds, by bit pattern.
pub const SIM_PERPENDICULAR_S: u64 = 0x4008_0000_0000_0000;

/// When the turn and the flight as a whole end, in seconds after the start, by bit pattern.
#[derive(Clone, Copy)]
pub struct Timeline {
    pub turn_end_s: u64,
    pub lifetime_s: u64,
}

/// The legs of the flight.
#[derive(Clone, Copy)]
pub enum Leg {
    /// Straight east, across the approach.
    East,
    /// The right-hand turn from east to south.
    Turn,
    /// Straight south, through the restricted area.
    South,
}

/// The leg of the flight at a time.
pub open spec fn leg_at(elapsed_s: u64, timeline: Timeline) -> Leg {
    if num_lt(elapsed_s, SIM_PERPENDICULAR_S) {
        Leg::East
    } else if num_lt(elapsed_s, timeline.turn_end_s) {
        Leg::Turn
    } else {
        Leg::South
    }
}

/// What becomes of the simulation at a time after its start, and the leg that its aircraft is
/// then on, if it flies: none before the start, and none once the lifetime is over, which ends
/// the simulation.
pub open spec fn advanced(
    started: Option<u128>,
    elapsed_s: u64,
    timeline: Timeline,
) -> (Option<u128>, Option<Leg>) {
    if started is None || num_lt(timeline.lifetime_s, elapsed_s) {
        (None, None)
    } else {
        (started, Some(leg_at(elapsed_s, timeline)))
    }
}

/// How long a simulation has run, if it runs. A start that is to come counts as now.
pub open spec fn elapsed(started: Option<u128>, now: u128) -> Option<u128> {
    match started {
        Some(s) => Some(
            if now >= s {
                (now - s) as u128
            } else {
                0
            },
        ),
        None => None,
    }
}

impl Simulation {
    /// No simulation runs.
    pub fn new() -> (r: Simulation)
        ensures
            r.started is None,
    {
        Simulation { started: None }
    }

    /// How long the simulation has run, in nanoseconds, if it runs.
    pub fn elapsed_ns(&self, now: u128) -> (r: Option<u128>)
        ensures
            r == elapsed(self.started, now),
            r is Some <==> self.started is Some,
            self.started matches Some(s) ==> r == Some(
                if now >= s {
                    (now - s) as u128
                } else {
                    0
                },
            ),
    {
        match self.started {
            Some(s) => if now >= s {
                Some(now - s)
            } else {
                Some(0)
            },
            None => None,
        }
    }

    /// The leg that the simulated aircraft is on, if it flies. Once its lifetime is over the
    /// simulation ends.
    pub fn advance(&mut self, elapsed_s: u64, timeline: &Timeline) -> (r: Option<Leg>)
        ensures
            (final(self).started, r) == advanced(old(self).started, elapsed_s, *timeline),
            r is Some <==> old(self).started is Some && !num_lt(timeline.lifetime_s, elapsed_s),
            r is Some ==> final(self).started == old(self).started,
            r is None ==> final(self).started is None,
            r is Some ==> {
                &&& num_lt(elapsed_s, SIM_PERPENDICULAR_S) ==> r == Some(Leg::East)
                &&& !num_lt(elapsed_s, SIM_PERPENDICULAR_S) && num_lt(
                    elapsed_s,
                    timeline.turn_end_s,
                ) ==> r == Some(Leg::Turn)
                &&& !num_lt(elapsed_s, SIM_PERPENDICULAR_S) && !num_lt(
                    elapsed_s,
                    timeline.turn_end_s,
                ) ==> r == Some(Leg::South)
            },
    {
        if self.started.is_none() {
            return None;
        }
        if float_lt(timeline.lifetime_s, elapsed_s) {
            self.started = None;
            return None;
        }
        if float_lt(elapsed_s, SIM_PERPENDICULAR_S) {
            Some(Leg::East)
        } else if float_lt(elapsed_s, timeline.turn_end_s) {
            Some(Leg::Turn)
        } else {
            Some(Leg::South)
        }
    }
}

/// Starts the simulation, or starts it again, and forgets the trail of an earlier run, so that
/// the aircraft does not seem to come from where that one ended. The answer is "started".
pub fn simulate(sim: &mut Simulation, history: &mut History, now: u128) -> (r: String)
    requires
        old(history).wf(),
    ensures
        final(sim).started == Some(now),
        elapsed(final(sim).started, now) == Some(0u128),
        final(history).wf(),
        final(history)@ == old(history)@.remove(SIM_ID@),
        !final(history)@.contains_key("SIM001"@),
        r@ == "started"@,
{
    sim.started = Some(now);
    history.remove(SIM_ID);
    "started".to_owned()
}

/// The leg that the simulated aircraft is on, and the numbers in its record.
pub struct SimState {
    pub leg: Leg,
    pub lat: Record,
    pub lon: Record,
    pub alt_ft: Record,
    pub gs_kt: Record,
    pub track_deg: Record,
}

impl SimState {
    /// The altitude and the ground speed are those of the simulated aircraft, and the track is that
    /// of the leg: east, south, or between them in the turn.
    pub open spec fn wf(self) -> bool {
        &&& self.alt_ft@ == float_json(SIM_ALT_FT)
        &&& self.gs_kt@ == float_json(SIM_GS_KT)
        &&& match self.leg {
            Leg::East => self.track_deg@ == float_json(EAST_DEG),
            Leg::Turn => self.track_deg@ is Number && num_le(EAST_DEG, self.track_deg@->bits)
                && num_le(self.track_deg@->bits, SOUTH_DEG),
            Leg::South => self.track_deg@ == float_json(SOUTH_DEG),
        }
    }
}

/// The record of the simulated aircraft.
pub open spec fn sim_json(state: SimState) -> Json {
    Json::Object(
        map![
            "hex"@ => Json::Text(SIM_ID@),
            "flight"@ => Json::Text(SIM_FLIGHT@),
            "r"@ => Json::Text(SIM_ID@),
            "t"@ => Json::Text("SIMA"@),
            "lat"@ => state.lat@,
            "lon"@ => state.lon@,
            "alt_baro"@ => float_json(SIM_ALT_FT),
            "gs"@ => float_json(SIM_GS_KT),
            "track"@ => state.track_deg@,
            "category"@ => Json::Text("A1"@),
        ],
    )
}

/// The record of the simulated aircraft.
pub fn simulated_aircraft(state: SimState) -> (r: Record)
    requires
        state.wf(),
    ensures
        r@ == sim_json(state),
{
    let mut r = Record::object();
    r.set("hex", Record::text(SIM_ID));
    r.set("flight", Record::text(SIM_FLIGHT));
    r.set("r", Record::text(SIM_ID));
    r.set("t", Record::text("SIMA"));
    r.set("lat", state.lat);
    r.set("lon", state.lon);
    r.set("alt_baro", state.alt_ft);
    r.set("gs", state.gs_kt);
    r.set("track", state.track_deg);
    r.set("category", Record::text("A1"));
    r
}

/// The record of the simulated aircraft has the same names, type, altitude and speed at any time;
/// only the position and the track vary, and the track is between east and south. Its identity is
/// `SIM_ID`.
pub proof fn simulated_record_is_fixed(state: SimState)
    requires
        state.wf(),
    ensures
        id_of(sim_json(state)) == Some(SIM_ID@),
        sim_json(state).text("hex"@) == Some(SIM_ID@),
        sim_json(state).text("r"@) == Some(SIM_ID@),
        sim_json(state).text("flight"@) == Some(SIM_FLIGHT@),
        sim_json(state).text("t"@) == Some("SIMA"@),
        sim_json(state).text("category"@) == Some("A1"@),
        sim_json(state).number("alt_baro"@) == Some(SIM_ALT_FT),
        sim_json(state).number("gs"@) == Some(SIM_GS_KT),
        sim_json(state).field("lat"@) == Some(state.lat@),
        sim_json(state).field("lon"@) == Some(state.lon@),
        sim_json(state).field("track"@) == Some(state.track_deg@),
        sim_json(state).number("track"@) is Some,
        num_le(EAST_DEG, sim_json(state).number("track"@)->0),
        num_le(sim_json(state).number("track"@)->0, SOUTH_DEG),
{
    simulated_fields(state);
}

proof fn simulated_fields(state: SimState)
    ensures
        sim_json(state).field("alt_baro"@) == Some(float_json(SIM_ALT_FT)),
        sim_json(state).field("gs"@) == Some(float_json(SIM_GS_KT)),
        id_of(sim_json(state)) == Some(SIM_ID@),
        sim_json(state).text("hex"@) == Some(SIM_ID@),
        sim_json(state).text("r"@) == Some(SIM_ID@),
        sim_json(state).text("flight"@) == Some(SIM_FLIGHT@),
        sim_json(state).text("t"@) == Some("SIMA"@),
        sim_json(state).text("category"@) == Some("A1"@),
        sim_json(state).number("alt_baro"@) == Some(SIM_ALT_FT),
        sim_json(state).number("gs"@) == Some(SIM_GS_KT),
        sim_json(state).field("lat"@) == Some(state.lat@),
        sim_json(state).field("lon"@) == Some(state.lon@),
        sim_json(state).field("track"@) == Some(state.track_deg@),
{
    reveal_strlit("hex");
    reveal_strlit("flight");
    reveal_strlit("r");
    reveal_strlit("t");
    reveal_strlit("lat");
    reveal_strlit("lon");
    reveal_strlit("alt_baro");
    reveal_strlit("gs");
    reveal_strlit("track");
    reveal_strlit("category");
    reveal_strlit("SIM001");
    assert("lat"@[1] != "lon"@[1]);
    assert("hex"@[0] != "lat"@[0] && "hex"@[0] != "lon"@[0]);
    assert("r"@[0] != "t"@[0]);
    assert("alt_baro"@[0] != "category"@[0]);
    assert("gs"@.len() == 2 && "track"@.len() == 5 && "category"@.len() == 8);
    assert("hex"@.len() == 3 && "flight"@.len() == 6 && "r"@.len() == 1 && "t"@.len() == 1);
    assert(trim_start(SIM_ID@) == SIM_ID@);
    assert(trim_end(SIM_ID@) == SIM_ID@);
}

/// The first report of a simulation that was started again has an empty history, whatever the
/// trails were before.
pub proof fn restarted_simulation_has_no_history(trails: Trails, state: SimState, now: u128)
    requires
        state.lat@ is Number,
        state.lon@ is Number,
    ensures
        sighting(sim_json(state)) is Some,
        history_json(observed(trails.remove(SIM_ID@), sim_json(state), now)[SIM_ID@])
            == Json::Array(Seq::empty()),
{
    simulated_fields(state);
    let trail = observed(trails.remove(SIM_ID@), sim_json(state), now)[SIM_ID@];
    assert(trail.positions =~= Seq::empty());
    assert(history_json(trail)->Array_0 =~= Seq::empty());
}

/// A simulation whose lifetime is over stays over, whenever it is looked at again.
pub proof fn ended_simulation_stays_ended(
    started: Option<u128>,
    elapsed_s: u64,
    later_s: u64,
    timeline: Timeline,
)
    requires
        num_lt(timeline.lifetime_s, elapsed_s),
    ensures
        advanced(started, elapsed_s, timeline).1 is None,
        advanced(advanced(started, elapsed_s, timeline).0, later_s, timeline) == (
            None::<u128>,
            None::<Leg>,
        ),
{
}

/// Starting the simulation at `now`, again or for the first time, puts the aircraft at the start of
/// its flight: no time has passed, and it flies east. From then on the time that has passed is
/// counted from `now`, whatever was before.
pub proof fn started_simulation_is_at_the_start(now: u128, later: u128, timeline: Timeline)
    requires
        now <= later,
        !num_lt(timeline.lifetime_s, ZERO),
    ensures
        elapsed(Some(now), now) == Some(0u128),
        elapsed(Some(now), later) == Some((later - now) as u128),
        advanced(Some(now), ZERO, timeline) == (Some(now), Some(Leg::East)),
{
}

/// How far along the flight a leg is.
pub open spec fn leg_number(leg: Leg) -> int {
    match leg {
        Leg::East => 0,
        Leg::Turn => 1,
        Leg::South => 2,
    }
}

/// The legs follow one another: as time passes the aircraft never goes back to an earlier one.
pub proof fn legs_follow_in_order(earlier_s: u64, later_s: u64, timeline: Timeline)
    requires
        num_le(earlier_s, later_s),
    ensures
        leg_number(leg_at(earlier_s, timeline)) <= leg_number(leg_at(later_s, timeline)),
{
}

/// A simulation that was started flies on until its lifetime is over: it stays started at the same
/// time, and its aircraft is on the east leg for the first 3 seconds, then in the turn until that
/// ends, and then on the south leg up to and including the end of its lifetime.
pub proof fn running_simulation_flies_on(started: u128, elapsed_s: u64, timeline: Timeline)
    requires
        !num_lt(timeline.lifetime_s, elapsed_s),
    ensures
        SIM_PERPENDICULAR_S == 0x4008_0000_0000_0000,
        ({
            let (then, leg) = advanced(Some(started), elapsed_s, timeline);
            &&& then == Some(started)
            &&& num_lt(elapsed_s, 0x4008_0000_0000_0000) ==> leg == Some(Leg::East)
            &&& num_le(0x4008_0000_0000_0000, elapsed_s) && num_lt(elapsed_s, timeline.turn_end_s)
                ==> leg == Some(Leg::Turn)
            &&& num_le(0x4008_0000_0000_0000, elapsed_s) && num_le(timeline.turn_end_s, elapsed_s)
                && num_le(elapsed_s, timeline.lifetime_s) ==> leg == Some(Leg::South)
            &&& leg is Some
        }),
{
}

/// A simulation that was not started, or whose lifetime is over, has no aircraft and does not run.
pub proof fn idle_simulation_has_no_aircraft(
    started: Option<u128>,
    elapsed_s: u64,
    timeline: Timeline,
)
    requires
        started is None || num_lt(timeline.lifetime_s, elapsed_s),
    ensures
        advanced(started, elapsed_s, timeline).0 is None,
        advanced(started, elapsed_s, timeline).1 is None,
{
}

/// The time that has passed and the time of the start add up to the present. No time has passed
/// before the start, and none is counted where nothing was started.
pub proof fn elapsed_time_counts_from_the_start(started: u128, now: u128)
    ensures
        elapsed(None, now) is None,
        elapsed(Some(started), now) is Some,
        started <= now ==> started + elapsed(Some(started), now)->0 == now,
        now < started ==> elapsed(Some(started), now)->0 == 0,
{
}

/// The simulated aircraft's record has just these ten fields: it names SIM001 of type SIMA, at
/// 200 ft with 50 metres per second, at the given position and on the given track.
pub proof fn simulated_record_has_ten_fields(state: SimState, key: Seq<char>)
    ensures
        sim_json(state).field("hex"@) == Some(Json::Text("SIM001"@)),
        sim_json(state).field("flight"@) == Some(Json::Text("SIM001  "@)),
        sim_json(state).field("r"@) == Some(Json::Text("SIM001"@)),
        sim_json(state).field("t"@) == Some(Json::Text("SIMA"@)),
        sim_json(state).field("category"@) == Some(Json::Text("A1"@)),
        sim_json(state).field("alt_baro"@) == Some(
            Json::Number { bits: 0x4069_0000_0000_0000, exact: None },
        ),
        sim_json(state).field("gs"@) == Some(
            Json::Number { bits: 0x4058_4c4e_c8af_a02b, exact: None },
        ),
        sim_json(state).field("lat"@) == Some(state.lat@),
        sim_json(state).field("lon"@) == Some(state.lon@),
        sim_json(state).field("track"@) == Some(state.track_deg@),
        sim_json(state).field(key) is Some ==> {
            ||| key == "hex"@
            ||| key == "flight"@
            ||| key == "r"@
            ||| key == "t"@
            ||| key == "category"@
            ||| key == "alt_baro"@
            ||| key == "gs"@
            ||| key == "lat"@
            ||| key == "lon"@
            ||| key == "track"@
        },
{
    simulated_fields(state);
}

/// Any position will do for the simulated aircraft. Its track is 90 degrees on the east leg, 180 on
/// the south leg, and any between them in the turn.
pub proof fn simulated_state_goes_by_the_leg(state: SimState)
    requires
        state.alt_ft@ == (Json::Number { bits: 0x4069_0000_0000_0000, exact: None }),
        state.gs_kt@ == (Json::Number { bits: 0x4058_4c4e_c8af_a02b, exact: None }),
        state.track_deg@ is Number,
    ensures
        state.leg is East ==> (state.wf() <==> state.track_deg@ == (Json::Number {
            bits: 0x4056_8000_0000_0000,
            exact: None,
        })),
        state.leg is Turn ==> (state.wf() <==> num_le(
            0x4056_8000_0000_0000,
            state.track_deg@->bits,
        ) && num_le(state.track_deg@->bits, 0x4066_8000_0000_0000)),
        state.leg is South ==> (state.wf() <==> state.track_deg@ == (Json::Number {
            bits: 0x4066_8000_0000_0000,
            exact: None,
        })),
{
}

} // verus!
