//! The polling of the upstream service: when to ask, what to ask for, and what a poll makes.
use crate::alert::{
    alert_json, alerts_change_nothing_else, annotate_aircraft, prediction, settled, with_alerts,
    Known, Measure, Measured, Prediction, RestrictedArea,
};
use crate::history::{
    history_json, observed_all, pruned, update_history, with_histories, History, Trails,
};
use crate::ieee::{num_le, ZERO};
use crate::json::{documents, set_changes_one_field, Json, Record};
use crate::text::{decimal, decimal_text};
use crate::trail_laws::{records_pass_through, trail_sent};
use vstd::prelude::*;
use vstd::string::*;

verus! {

/// The longest time that failures add to the polling interval, in seconds.
pub const BACKOFF_MAX_S: u64 = 10;

/// What the upstream service answers.
pub struct AdsbResponse {
    pub ac: Vec<Record>,
    pub now: Option<u64>,
    pub total: Option<u64>,
}

/// When to ask next: the polling interval, and what failures add to it, in seconds.
pub struct Poller {
    pub interval_s: u64,
    pub backoff_s: u64,
}

/// What is added to the interval after one more failure: a second at first, then twice as much
/// each time, up to `BACKOFF_MAX_S`.
pub open spec fn next_backoff(backoff_s: int) -> int {
    if backoff_s == 0 {
        1
    } else if 2 * backoff_s <= BACKOFF_MAX_S {
        2 * backoff_s
    } else {
        BACKOFF_MAX_S as int
    }
}

impl Poller {
    /// There is at least a second between two polls, and failures add no more than
    /// `BACKOFF_MAX_S`.
    pub open spec fn wf(self) -> bool {
        self.interval_s >= 1 && self.backoff_s <= BACKOFF_MAX_S
    }

    /// A poller that has not failed yet. An interval of 0 counts as 1.
    pub fn new(poll_interval: u64) -> (r: Poller)
        ensures
            r.wf(),
            r.interval_s == if poll_interval == 0 {
                1
            } else {
                poll_interval
            },
            r.backoff_s == 0,
    {
        Poller {
            interval_s: if poll_interval == 0 {
                1
            } else {
                poll_interval
            },
            backoff_s: 0,
        }
    }

    /// How long to wait before the next poll, in seconds.
    pub fn delay_s(&self) -> (r: u64)
        requires
            self.interval_s + self.backoff_s <= u64::MAX,
        ensures
            r == self.interval_s + self.backoff_s,
    {
        self.interval_s + self.backoff_s
    }

    /// Takes in whether the service answered a poll.
    pub fn on_fetch(&mut self, answered: bool)
        requires
            old(self).wf(),
        ensures
            final(self).wf(),
            final(self).interval_s == old(self).interval_s,
            final(self).backoff_s == (if answered {
                0
            } else {
                next_backoff(old(self).backoff_s as int)
            }),
            answered ==> final(self).backoff_s == 0,
            !answered && old(self).backoff_s == 0 ==> final(self).backoff_s == 1,
            !answered && 1 <= old(self).backoff_s <= 5 ==> final(self).backoff_s == old(
                self,
            ).backoff_s + old(self).backoff_s,
            !answered && old(self).backoff_s > 5 ==> final(self).backoff_s == 10,
    {
        self.backoff_s = if answered {
            0
        } else if self.backoff_s == 0 {
            1
        } else if self.backoff_s * 2 <= BACKOFF_MAX_S {
            self.backoff_s * 2
        } else {
            BACKOFF_MAX_S
        };
    }
}

/// What failures in a row add to the interval, from a poll that went well on.
pub open spec fn backoff_after(failures: nat) -> int
    decreases failures,
{
    if failures == 0 {
        0
    } else {
        next_backoff(backoff_after((failures - 1) as nat))
    }
}

/// Failures in a row add 1, 2, 4 and 8 seconds, and `BACKOFF_MAX_S` from the fifth on. They never
/// add less than before.
pub proof fn backoff_doubles_up_to_the_limit(failures: nat)
    ensures
        backoff_after(failures) == (if failures == 0 {
            0
        } else if failures == 1 {
            1
        } else if failures == 2 {
            2
        } else if failures == 3 {
            4
        } else if failures == 4 {
            8
        } else {
            BACKOFF_MAX_S as int
        }),
        backoff_after(failures) <= backoff_after(failures + 1) <= BACKOFF_MAX_S,
    decreases failures,
{
    reveal_with_fuel(backoff_after, 6);
    if failures > 4 {
        backoff_doubles_up_to_the_limit((failures - 1) as nat);
    }
}

/// The address to ask for the aircraft around a point. The coordinates are given as they are
/// written, in degrees; the radius is in nautical miles.
pub fn query_url(lat: &str, lon: &str, radius_nm: u32) -> (r: String)
    ensures
        r@ == "https://api.adsb.lol/v2/lat/"@ + lat@ + "/lon/"@ + lon@ + "/dist/"@ + decimal(
            radius_nm as nat,
        ),
{
    let mut url = "https://api.adsb.lol/v2/lat/".to_owned();
    url.append(lat);
    url.append("/lon/");
    url.append(lon);
    url.append("/dist/");
    url.append(decimal_text(radius_nm).as_str());
    url
}

/// The records of a poll: those of the answer, if there was one, and that of the simulated
/// aircraft at the end.
pub open spec fn merged(outcome: Option<AdsbResponse>, sim: Option<Record>) -> Seq<Record> {
    let ac = match outcome {
        Some(response) => response.ac@,
        None => Seq::empty(),
    };
    match sim {
        Some(record) => ac.push(record),
        None => ac,
    }
}

/// Takes the outcome of a poll, which is nothing where the service did not answer, and the
/// simulated aircraft into the trails. Every answer makes a snapshot, and so does a simulation.
/// Where there is neither, there is nothing new to say, and the trails are left alone.
pub fn gather(
    outcome: Option<AdsbResponse>,
    sim: Option<Record>,
    history: &mut History,
    now: u128,
) -> (r: Option<AdsbResponse>)
    requires
        old(history).wf(),
    ensures
        final(history).wf(),
        r is None <==> outcome is None && sim is None,
        r is None ==> *final(history) == *old(history),
        r matches Some(gathered) ==> {
            &&& documents(gathered.ac@) == with_histories(
                old(history)@,
                documents(merged(outcome, sim)),
                now,
            )
            &&& gathered.now == match outcome {
                Some(response) => response.now,
                None => None,
            }
            &&& gathered.total == match outcome {
                Some(response) => response.total,
                None => None,
            }
            &&& final(history)@ == pruned(
                observed_all(old(history)@, documents(merged(outcome, sim)), now),
                now,
            )
            &&& gathered.ac@.len() == (if outcome is Some {
                outcome->0.ac@.len()
            } else {
                0
            }) + (if sim is Some {
                1nat
            } else {
                0nat
            })
            &&& outcome is Some ==> forall|i: int, key: Seq<char>|
                0 <= i < outcome->0.ac@.len() && key != "mc_history"@ ==> (
                #[trigger] gathered.ac@[i]@.field(key)) == outcome->0.ac@[i]@.field(key)
            &&& sim is Some ==> forall|key: Seq<char>|
                key != "mc_history"@ ==> (#[trigger] gathered.ac@.last()@.field(key))
                    == sim->0@.field(key)
        },
{
    if outcome.is_none() && sim.is_none() {
        return None;
    }
    let mut gathered = match outcome {
        Some(response) => response,
        None => AdsbResponse { ac: Vec::new(), now: None, total: None },
    };
    if let Some(record) = sim {
        gathered.ac.push(record);
    }
    assert(gathered.ac@ =~= merged(outcome, sim));
    let ghost trails = history@;
    let ghost records = gathered.ac@;
    update_history(history, &mut gathered.ac, now);
    proof {
        assert forall|i: int, key: Seq<char>|
            0 <= i < records.len() && key != "mc_history"@ implies (
        #[trigger] gathered.ac@[i]@.field(key)) == records[i]@.field(key) by {
            records_pass_through(trails, documents(records), now, i, key);
            assert(documents(gathered.ac@)[i] == gathered.ac@[i]@);
        }
        assert(documents(gathered.ac@).len() == gathered.ac@.len());
    }
    Some(gathered)
}

/// Where the relay looks and what it watches. The coordinates, the radius of the restricted area
/// in metres and its ceiling in feet are bit patterns of doubles.
#[derive(Clone, Copy)]
pub struct Settings {
    pub lat: u64,
    pub lon: u64,
    pub radius_nm: u32,
    pub restricted_radius_m: u64,
    pub restricted_alt_ft: u64,
}

impl Settings {
    /// The restricted area: around the centre of the search.
    pub open spec fn area(self) -> RestrictedArea {
        RestrictedArea {
            lat: self.lat,
            lon: self.lon,
            radius_m: self.restricted_radius_m,
            altitude_ft: self.restricted_alt_ft,
        }
    }

    /// The restricted area: around the centre of the search.
    pub fn restricted_area(&self) -> (r: RestrictedArea)
        ensures
            r == self.area(),
            r.lat == self.lat,
            r.lon == self.lon,
            r.radius_m == self.restricted_radius_m,
            r.altitude_ft == self.restricted_alt_ft,
    {
        RestrictedArea {
            lat: self.lat,
            lon: self.lon,
            radius_m: self.restricted_radius_m,
            altitude_ft: self.restricted_alt_ft,
        }
    }
}

/// The centre of the search, by bit patterns.
#[derive(Clone, Copy)]
pub struct Center {
    pub lat: u64,
    pub lon: u64,
}

/// What is sent to the clients after a poll.
pub struct Snapshot {
    pub center: Center,
    pub radius_nm: u32,
    pub restricted: RestrictedArea,
    pub now: Option<u64>,
    pub total: Option<u64>,
    pub aircraft: Vec<Record>,
}

/// The snapshot of a poll: the gathered records with their alerts, by what was measured of each.
pub fn make_snapshot(
    settings: &Settings,
    gathered: AdsbResponse,
    horizon: &Measure,
    measured: Vec<Measured>,
) -> (r: Snapshot)
    requires
        horizon.wf(),
        gathered.ac@.len() == measured@.len(),
        forall|i: int|
            0 <= i < measured@.len() ==> (#[trigger] measured@[i]).wf() && (measured@[i].closest_s
                is Some ==> num_le(ZERO, horizon.bits)) && settled(
                documents(gathered.ac@)[i],
                settings.area(),
                horizon.bits,
                measured@[i],
            ),
    ensures
        r.center == (Center { lat: settings.lat, lon: settings.lon }),
        r.radius_nm == settings.radius_nm,
        r.restricted == settings.area(),
        r.center.lat == settings.lat,
        r.center.lon == settings.lon,
        r.restricted.lat == settings.lat,
        r.restricted.lon == settings.lon,
        r.restricted.radius_m == settings.restricted_radius_m,
        r.restricted.altitude_ft == settings.restricted_alt_ft,
        r.now == gathered.now,
        r.total == gathered.total,
        documents(r.aircraft@) == with_alerts(
            documents(gathered.ac@),
            settings.area(),
            horizon.bits,
            measured@,
        ),
        r.aircraft@.len() == gathered.ac@.len(),
        forall|i: int, key: Seq<char>|
            0 <= i < r.aircraft@.len() && key != "mc_alert"@ ==> (
            #[trigger] r.aircraft@[i]@.field(key)) == gathered.ac@[i]@.field(key),
        forall|i: int|
            0 <= i < r.aircraft@.len() ==> (#[trigger] r.aircraft@[i])@.field("mc_alert"@)
                == match prediction(
                gathered.ac@[i]@,
                RestrictedArea {
                    lat: settings.lat,
                    lon: settings.lon,
                    radius_m: settings.restricted_radius_m,
                    altitude_ft: settings.restricted_alt_ft,
                },
                horizon.bits,
                measured@[i].as_known(),
            ) {
                Prediction::Decided(Some(alert)) => Some(alert_json(alert)),
                _ => None,
            },
{
    let restricted = settings.restricted_area();
    let ghost given = measured@;
    let ghost records = documents(gathered.ac@);
    let aircraft = annotate_aircraft(gathered.ac, &restricted, horizon, measured);
    proof {
        assert(documents(aircraft@).len() == aircraft@.len());
        assert forall|i: int, key: Seq<char>|
            0 <= i < aircraft@.len() && key != "mc_alert"@ implies (
        #[trigger] aircraft@[i]@.field(key)) == records[i].field(key) by {
            alerts_change_nothing_else(records, restricted, horizon.bits, given, i, key);
            assert(documents(aircraft@)[i] == aircraft@[i]@);
        }
        assert forall|i: int| 0 <= i < aircraft@.len() implies (
        #[trigger] aircraft@[i])@.field("mc_alert"@) == match prediction(
            records[i],
            restricted,
            horizon.bits,
            given[i].as_known(),
        ) {
            Prediction::Decided(Some(alert)) => Some(alert_json(alert)),
            _ => None,
        } by {
            alerts_change_nothing_else(records, restricted, horizon.bits, given, i, "mc_alert"@);
            assert(documents(aircraft@)[i] == aircraft@[i]@);
        }
    }
    Snapshot {
        center: Center { lat: settings.lat, lon: settings.lon },
        radius_nm: settings.radius_nm,
        restricted,
        now: gathered.now,
        total: gathered.total,
        aircraft,
    }
}

/// The records of a snapshot: those of the poll with their trails and their alerts.
pub open spec fn snapshot_records(
    trails: Trails,
    aircraft: Seq<Json>,
    now: u128,
    area: RestrictedArea,
    horizon_s: u64,
    measured: Seq<Measured>,
) -> Seq<Json> {
    with_alerts(with_histories(trails, aircraft, now), area, horizon_s, measured)
}

/// The upstream records reach the clients as they are: all of them, in their order, and with every
/// field but `mc_history` and `mc_alert` unchanged.
pub proof fn upstream_records_pass_through(
    trails: Trails,
    aircraft: Seq<Json>,
    now: u128,
    area: RestrictedArea,
    horizon_s: u64,
    measured: Seq<Measured>,
    i: int,
    key: Seq<char>,
)
    requires
        0 <= i < aircraft.len() == measured.len(),
        key != "mc_history"@,
        key != "mc_alert"@,
    ensures
        snapshot_records(trails, aircraft, now, area, horizon_s, measured).len() == aircraft.len(),
        snapshot_records(trails, aircraft, now, area, horizon_s, measured)[i].field(key)
            == aircraft[i].field(key),
{
    records_pass_through(trails, aircraft, now, i, key);
    alerts_change_nothing_else(
        with_histories(trails, aircraft, now),
        area,
        horizon_s,
        measured,
        i,
        key,
    );
}

/// The trail that a record carries does not change what is predicted of its aircraft.
pub proof fn history_does_not_change_predictions(
    ac: Json,
    list: Json,
    area: RestrictedArea,
    horizon_s: u64,
    known: Known,
)
    ensures
        prediction(ac.with("mc_history"@, list), area, horizon_s, known) == prediction(
            ac,
            area,
            horizon_s,
            known,
        ),
{
    reveal_strlit("mc_history");
    reveal_strlit("lat");
    reveal_strlit("lon");
    reveal_strlit("alt_baro");
    reveal_strlit("alt_geom");
    reveal_strlit("gs");
    reveal_strlit("track");
    assert("mc_history"@.len() == 10 && "lat"@.len() == 3 && "lon"@.len() == 3);
    assert("alt_baro"@.len() == 8 && "alt_geom"@.len() == 8);
    assert("gs"@.len() == 2 && "track"@.len() == 5);
    set_changes_one_field(ac, "mc_history"@, list, "lat"@);
    set_changes_one_field(ac, "mc_history"@, list, "lon"@);
    set_changes_one_field(ac, "mc_history"@, list, "alt_baro"@);
    set_changes_one_field(ac, "mc_history"@, list, "alt_geom"@);
    set_changes_one_field(ac, "mc_history"@, list, "gs"@);
    set_changes_one_field(ac, "mc_history"@, list, "track"@);
}

/// What a snapshot adds to a record: the trail as it is when the records up to this one are taken
/// in, and an alert exactly if one is decided on for the record as it came. A record that is not
/// alerted has no `mc_alert`.
pub proof fn snapshot_adds_trail_and_alert(
    trails: Trails,
    aircraft: Seq<Json>,
    now: u128,
    area: RestrictedArea,
    horizon_s: u64,
    measured: Seq<Measured>,
    i: int,
)
    requires
        0 <= i < aircraft.len() == measured.len(),
    ensures
        snapshot_records(trails, aircraft, now, area, horizon_s, measured)[i].field("mc_history"@)
            == with_histories(trails, aircraft, now)[i].field("mc_history"@),
        snapshot_records(trails, aircraft, now, area, horizon_s, measured)[i].field("mc_alert"@)
            == match prediction(aircraft[i], area, horizon_s, measured[i].as_known()) {
            Prediction::Decided(Some(alert)) => Some(alert_json(alert)),
            _ => None,
        },
{
    reveal_strlit("mc_history");
    reveal_strlit("mc_alert");
    assert("mc_history"@.len() == 10 && "mc_alert"@.len() == 8);
    let records = with_histories(trails, aircraft, now);
    alerts_change_nothing_else(records, area, horizon_s, measured, i, "mc_history"@);
    history_does_not_change_predictions(
        aircraft[i],
        history_json(trail_sent(trails, aircraft, now, i)),
        area,
        horizon_s,
        measured[i].as_known(),
    );
}

/// One more failure adds a second to an interval that nothing was added to, and twice what was
/// added before to any other, but never more than 10 seconds.
pub proof fn failure_doubles_the_backoff(backoff_s: int)
    requires
        0 <= backoff_s <= 10,
    ensures
        BACKOFF_MAX_S == 10,
        backoff_s == 0 ==> next_backoff(backoff_s) == 1,
        0 < backoff_s <= 5 ==> next_backoff(backoff_s) == backoff_s + backoff_s,
        backoff_s > 5 ==> next_backoff(backoff_s) == 10,
{
}

/// The records of a poll are all those of the answer, in their order, and after them that of the
/// simulated aircraft, if there is one. A poll that is not answered has only the latter.
pub proof fn poll_has_all_records(outcome: Option<AdsbResponse>, sim: Option<Record>)
    ensures
        outcome is Some && sim is None ==> merged(outcome, sim).len() == outcome->0.ac@.len(),
        outcome is Some && sim is Some ==> merged(outcome, sim).len() == outcome->0.ac@.len() + 1,
        outcome is None && sim is None ==> merged(outcome, sim).len() == 0,
        outcome is None && sim is Some ==> merged(outcome, sim).len() == 1,
        outcome is Some ==> forall|i: int|
            0 <= i < outcome->0.ac@.len() ==> #[trigger] merged(outcome, sim)[i]
                == outcome->0.ac@[i],
        sim is Some ==> merged(outcome, sim).last() == sim->0,
{
}

/// The records that are gathered of an answered poll are as many as the answer has, and one more if
/// a simulation runs. Each has every field but `mc_history` as the answer's record with the same
/// index, and the one after them has these fields as the simulated record.
pub proof fn gathered_records_are_those_of_the_answer(
    trails: Trails,
    answer: AdsbResponse,
    sim: Option<Record>,
    now: u128,
    key: Seq<char>,
)
    requires
        key != "mc_history"@,
    ensures
        ({
            let gathered = with_histories(trails, documents(merged(Some(answer), sim)), now);
            &&& gathered.len() == answer.ac@.len() + (if sim is Some {
                1nat
            } else {
                0nat
            })
            &&& forall|i: int|
                0 <= i < answer.ac@.len() ==> (#[trigger] gathered[i]).field(key)
                    == answer.ac@[i]@.field(key)
            &&& sim is Some ==> gathered.last().field(key) == sim->0@.field(key)
        }),
{
    let records = documents(merged(Some(answer), sim));
    let gathered = with_histories(trails, records, now);
    assert forall|i: int| 0 <= i < records.len() implies (#[trigger] gathered[i]).field(key)
        == records[i].field(key) by {
        records_pass_through(trails, records, now, i, key);
    }
}

/// The restricted area is around the centre of the search, with the radius in metres and the
/// ceiling in feet that are configured for it.
pub proof fn area_is_as_configured(settings: Settings)
    ensures
        settings.area().lat == settings.lat,
        settings.area().lon == settings.lon,
        settings.area().radius_m == settings.restricted_radius_m,
        settings.area().altitude_ft == settings.restricted_alt_ft,
{
}

} // verus!
