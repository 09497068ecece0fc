//! What holds of the trails over many reports and polls.
use crate::aircraft::{fix_of, id_of, sighting, Fix};
use crate::history::{
    continues, current, extended, extended_trail_is_valid, fresh, history_json, newest, no_trail,
    observed, observed_all, path, pruned, same_place, valid_trail, with_histories, with_history,
    TrailState, Trails, HISTORY_LEN, HISTORY_STALE_S, NANOS_PER_S,
};
use crate::json::{set_changes_one_field, Json};
use vstd::prelude::*;

verus! {

/// The trail after a list of reports, each with its time.
pub open spec fn followed(trail: TrailState, reports: Seq<(Fix, u128)>) -> TrailState
    decreases reports.len(),
{
    if reports.len() == 0 {
        trail
    } else {
        extended(followed(trail, reports.drop_last()), reports.last().0, reports.last().1)
    }
}

/// The places that a list of reports went through: reports in a row from the same place count
/// once, by the latest of them.
pub open spec fn places(reports: Seq<(Fix, u128)>) -> Seq<Fix>
    decreases reports.len(),
{
    if reports.len() == 0 {
        Seq::empty()
    } else {
        let before = places(reports.drop_last());
        let fix = reports.last().0;
        if before.len() > 0 && same_place(before.last(), fix) {
            before.drop_last().push(fix)
        } else {
            before.push(fix)
        }
    }
}

/// A new aircraft's trail after any reports is the last `HISTORY_LEN` of the places that it went
/// through before the current one, oldest first; the current one is where it was reported last.
pub proof fn trail_is_the_last_places(start: u128, reports: Seq<(Fix, u128)>)
    requires
        reports.len() > 0,
    ensures
        places(reports).len() > 0,
        followed(no_trail(start), reports) == (TrailState {
            positions: newest(places(reports).drop_last(), HISTORY_LEN as nat),
            last_pos: Some(places(reports).last()),
            last_seen: reports.last().1,
        }),
        places(reports).last() == reports.last().0,
    decreases reports.len(),
{
    let rest = reports.drop_last();
    let trail = followed(no_trail(start), rest);
    if rest.len() > 0 {
        trail_is_the_last_places(start, rest);
        let before = places(rest);
        let prev = before.last();
        let fix = reports.last().0;
        if same_place(prev, fix) {
            assert(places(reports).drop_last() =~= before.drop_last());
        } else {
            assert(places(reports).drop_last() =~= before);
            assert(before.drop_last().push(prev) =~= before);
            assert(newest(trail.positions.push(prev), HISTORY_LEN as nat) =~= newest(
                before,
                HISTORY_LEN as nat,
            ));
        }
    } else {
        assert(places(rest) =~= Seq::empty());
        assert(places(reports).drop_last() =~= Seq::empty());
    }
}

/// The reports that a list of records makes of one aircraft.
pub open spec fn reports_of(id: Seq<char>, aircraft: Seq<Json>, now: u128) -> Seq<(Fix, u128)>
    decreases aircraft.len(),
{
    if aircraft.len() == 0 {
        Seq::empty()
    } else {
        let before = reports_of(id, aircraft.drop_last(), now);
        match sighting(aircraft.last()) {
            Some((own, fix)) if own == id => before.push((fix, now)),
            _ => before,
        }
    }
}

/// An aircraft's trail depends on its own reports alone: they continue the trail that it has,
/// unless it was unseen for too long, and an aircraft that is not reported keeps what it has.
pub proof fn trail_follows_own_reports(
    trails: Trails,
    aircraft: Seq<Json>,
    now: u128,
    id: Seq<char>,
)
    ensures
        observed_all(trails, aircraft, now).contains_key(id) <==> trails.contains_key(id)
            || reports_of(id, aircraft, now).len() > 0,
        reports_of(id, aircraft, now).len() > 0 ==> observed_all(trails, aircraft, now)[id]
            == followed(current(trails, id, now), reports_of(id, aircraft, now)),
        reports_of(id, aircraft, now).len() == 0 && trails.contains_key(id) ==> observed_all(
            trails,
            aircraft,
            now,
        )[id] == trails[id],
    decreases aircraft.len(),
{
    if aircraft.len() > 0 {
        let rest = aircraft.drop_last();
        trail_follows_own_reports(trails, rest, now, id);
        reports_carry_the_time(id, rest, now);
        let before = reports_of(id, rest, now);
        if let Some((own, fix)) = sighting(aircraft.last()) {
            if own == id {
                assert(before.push((fix, now)).drop_last() =~= before);
                if before.len() == 0 {
                    assert(before =~= Seq::empty());
                } else {
                    assert(continues(observed_all(trails, rest, now)[id], now));
                }
            }
        }
    }
}

/// An aircraft that was unseen for more than `HISTORY_STALE_S` seconds starts a new trail: its
/// first report has an empty list, whatever is left of the old trail. One that was unseen for no
/// longer than that continues its own.
pub proof fn trail_continues_up_to_the_limit(trails: Trails, ac: Json, now: u128)
    requires
        sighting(ac) is Some,
        trails.contains_key(id_of(ac)->0),
    ensures
        now - trails[id_of(ac)->0].last_seen > HISTORY_STALE_S * NANOS_PER_S ==> {
            &&& observed(trails, ac, now)[id_of(ac)->0].positions.len() == 0
            &&& with_history(observed(trails, ac, now), ac, now).field("mc_history"@) == Some(
                Json::Array(Seq::empty()),
            )
        },
        now - trails[id_of(ac)->0].last_seen <= HISTORY_STALE_S * NANOS_PER_S ==> {
            &&& observed(trails, ac, now)[id_of(ac)->0] == extended(
                trails[id_of(ac)->0],
                fix_of(ac)->0,
                now,
            )
            &&& with_history(observed(trails, ac, now), ac, now).field("mc_history"@) == Some(
                history_json(extended(trails[id_of(ac)->0], fix_of(ac)->0, now)),
            )
        },
{
    let trail = observed(trails, ac, now)[id_of(ac)->0];
    assert(continues(trail, now));
    if now - trails[id_of(ac)->0].last_seen > HISTORY_STALE_S * NANOS_PER_S {
        assert(history_json(trail)->Array_0 =~= Seq::empty());
    }
}

/// The trails after a poll: its records are taken in, and what is stale is dropped.
pub open spec fn polled(trails: Trails, aircraft: Seq<Json>, now: u128) -> Trails {
    pruned(observed_all(trails, aircraft, now), now)
}

/// After a poll no trail is left of an aircraft that has been unseen for `HISTORY_STALE_S` seconds
/// or more. An aircraft that the poll does not report keeps its trail as it was until then.
pub proof fn stale_trails_are_dropped(
    trails: Trails,
    aircraft: Seq<Json>,
    now: u128,
    id: Seq<char>,
)
    ensures
        polled(trails, aircraft, now).contains_key(id) ==> now - polled(
            trails,
            aircraft,
            now,
        )[id].last_seen < HISTORY_STALE_S * NANOS_PER_S,
        reports_of(id, aircraft, now).len() == 0 && trails.contains_key(id) ==> {
            if now - trails[id].last_seen >= HISTORY_STALE_S * NANOS_PER_S {
                !polled(trails, aircraft, now).contains_key(id)
            } else {
                polled(trails, aircraft, now).contains_key(id) && polled(
                    trails,
                    aircraft,
                    now,
                )[id] == trails[id]
            }
        },
{
    trail_follows_own_reports(trails, aircraft, now, id);
    if reports_of(id, aircraft, now).len() == 0 {
        assert(reports_of(id, aircraft, now) =~= Seq::empty());
    }
}

/// An aircraft that a poll reports has a trail after it, with the reported position as the
/// current one and the time of the poll.
pub proof fn reported_trails_are_kept(
    trails: Trails,
    aircraft: Seq<Json>,
    now: u128,
    id: Seq<char>,
)
    requires
        reports_of(id, aircraft, now).len() > 0,
    ensures
        polled(trails, aircraft, now).contains_key(id),
        polled(trails, aircraft, now)[id].last_seen == now,
        polled(trails, aircraft, now)[id].last_pos == Some(
            reports_of(id, aircraft, now).last().0,
        ),
{
    trail_follows_own_reports(trails, aircraft, now, id);
    reports_carry_the_time(id, aircraft, now);
}

proof fn reports_carry_the_time(id: Seq<char>, aircraft: Seq<Json>, now: u128)
    ensures
        reports_of(id, aircraft, now).len() > 0 ==> reports_of(id, aircraft, now).last().1 == now,
    decreases aircraft.len(),
{
    if aircraft.len() > 0 {
        reports_carry_the_time(id, aircraft.drop_last(), now);
    }
}

/// A poll keeps all trails valid.
pub proof fn poll_keeps_trails_valid(trails: Trails, aircraft: Seq<Json>, now: u128)
    requires
        forall|id: Seq<char>| #[trigger] trails.contains_key(id) ==> valid_trail(trails[id]),
    ensures
        forall|id: Seq<char>| #[trigger]
            observed_all(trails, aircraft, now).contains_key(id) ==> valid_trail(
                observed_all(trails, aircraft, now)[id],
            ),
        forall|id: Seq<char>| #[trigger]
            polled(trails, aircraft, now).contains_key(id) ==> valid_trail(
                polled(trails, aircraft, now)[id],
            ),
    decreases aircraft.len(),
{
    if aircraft.len() > 0 {
        let rest = aircraft.drop_last();
        poll_keeps_trails_valid(trails, rest, now);
        let before = observed_all(trails, rest, now);
        if let Some((own, fix)) = sighting(aircraft.last()) {
            extended_trail_is_valid(current(before, own, now), fix, now);
        }
    }
}

/// The records pass through: none is added, dropped or moved, no field but `mc_history` changes,
/// and a record that is not an object does not change at all.
pub proof fn records_pass_through(
    trails: Trails,
    aircraft: Seq<Json>,
    now: u128,
    i: int,
    key: Seq<char>,
)
    requires
        0 <= i < aircraft.len(),
    ensures
        with_histories(trails, aircraft, now).len() == aircraft.len(),
        key != "mc_history"@ ==> with_histories(trails, aircraft, now)[i].field(key)
            == aircraft[i].field(key),
        !(aircraft[i] is Object) ==> with_histories(trails, aircraft, now)[i] == aircraft[i],
{
    let after = observed_all(trails, aircraft.take(i + 1), now);
    let list = with_history(after, aircraft[i], now).field("mc_history"@);
    if let Some(value) = list {
        set_changes_one_field(aircraft[i], "mc_history"@, value, key);
    }
}

/// The trail whose positions a record is sent out with.
pub open spec fn trail_sent(trails: Trails, aircraft: Seq<Json>, now: u128, i: int) -> TrailState {
    match id_of(aircraft[i]) {
        Some(id) => current(observed_all(trails, aircraft.take(i + 1), now), id, now),
        None => no_trail(now),
    }
}

/// Every aircraft entry gets an `mc_history`: at most `HISTORY_LEN` pairs of latitude and
/// longitude, none where no trail is known.
pub proof fn every_record_gets_a_history(
    trails: Trails,
    aircraft: Seq<Json>,
    now: u128,
    i: int,
)
    requires
        forall|id: Seq<char>| #[trigger] trails.contains_key(id) ==> valid_trail(trails[id]),
        0 <= i < aircraft.len(),
        aircraft[i] is Object,
    ensures
        with_histories(trails, aircraft, now)[i].field("mc_history"@) == Some(
            history_json(trail_sent(trails, aircraft, now, i)),
        ),
        trail_sent(trails, aircraft, now, i).positions.len() <= HISTORY_LEN,
        id_of(aircraft[i]) is None ==> with_histories(trails, aircraft, now)[i].field(
            "mc_history"@,
        ) == Some(Json::Array(Seq::empty())),
{
    let seen = aircraft.take(i + 1);
    let trail = trail_sent(trails, aircraft, now, i);
    poll_keeps_trails_valid(trails, seen, now);
    set_changes_one_field(aircraft[i], "mc_history"@, history_json(trail), "mc_history"@);
    assert(history_json(no_trail(now))->Array_0 =~= Seq::empty());
}

/// A record with an identity and a position is sent out with the trail that its own position ends:
/// the newest previous position is at another place than the record's own.
pub proof fn current_position_is_not_repeated(
    trails: Trails,
    aircraft: Seq<Json>,
    now: u128,
    i: int,
)
    requires
        forall|id: Seq<char>| #[trigger] trails.contains_key(id) ==> valid_trail(trails[id]),
        0 <= i < aircraft.len(),
        sighting(aircraft[i]) is Some,
    ensures
        ({
            let trail = trail_sent(trails, aircraft, now, i);
            &&& trail == observed_all(
                trails,
                aircraft.take(i + 1),
                now,
            )[id_of(aircraft[i])->0]
            &&& trail.last_pos == fix_of(aircraft[i])
            &&& trail.positions.len() > 0 ==> !same_place(
                trail.positions.last(),
                fix_of(aircraft[i])->0,
            )
        }),
{
    let seen = aircraft.take(i + 1);
    let after = observed_all(trails, seen, now);
    let id = id_of(aircraft[i])->0;
    let fix = fix_of(aircraft[i])->0;
    poll_keeps_trails_valid(trails, seen, now);
    assert(seen.last() == aircraft[i]);
    let trail = after[id];
    assert(after.contains_key(id));
    assert(continues(trail, now));
    assert(valid_trail(trail));
    assert(trail.last_pos == Some(fix));
    if trail.positions.len() > 0 {
        let n = trail.positions.len() as int;
        assert(path(trail)[n - 1] == trail.positions.last());
        assert(path(trail)[n] == fix);
    }
}

/// The trails after a list of polls, each with its records and its time, from no trails at all.
pub open spec fn polled_all(polls: Seq<(Seq<Json>, u128)>) -> Trails
    decreases polls.len(),
{
    if polls.len() == 0 {
        Map::empty()
    } else {
        polled(polled_all(polls.drop_last()), polls.last().0, polls.last().1)
    }
}

/// The reports that a list of polls makes of one aircraft.
pub open spec fn all_reports_of(id: Seq<char>, polls: Seq<(Seq<Json>, u128)>) -> Seq<(Fix, u128)>
    decreases polls.len(),
{
    if polls.len() == 0 {
        Seq::empty()
    } else {
        all_reports_of(id, polls.drop_last()) + reports_of(id, polls.last().0, polls.last().1)
    }
}

proof fn followed_in_two_parts(
    trail: TrailState,
    first: Seq<(Fix, u128)>,
    second: Seq<(Fix, u128)>,
)
    ensures
        followed(trail, first + second) == followed(followed(trail, first), second),
    decreases second.len(),
{
    if second.len() == 0 {
        assert(first + second =~= first);
    } else {
        followed_in_two_parts(trail, first, second.drop_last());
        assert((first + second).drop_last() =~= first + second.drop_last());
    }
}

/// Whether an aircraft is reported by the first poll and is never lost after it: each later poll
/// reports it no more than `HISTORY_STALE_S` seconds after it was seen last, or comes less than
/// that time after.
pub open spec fn kept_in_sight(polls: Seq<(Seq<Json>, u128)>, id: Seq<char>) -> bool {
    &&& polls.len() > 0
    &&& reports_of(id, polls[0].0, polls[0].1).len() > 0
    &&& forall|k: int| 0 < k < polls.len() ==> #[trigger] still_in_sight(polls, id, k)
}

/// Whether the aircraft is not lost at the poll with this index.
pub open spec fn still_in_sight(polls: Seq<(Seq<Json>, u128)>, id: Seq<char>, k: int) -> bool {
    let trail = polled_all(polls.take(k))[id];
    ||| fresh(trail, polls[k].1)
    ||| continues(trail, polls[k].1) && reports_of(id, polls[k].0, polls[k].1).len() > 0
}

/// As long as an aircraft is kept in sight, polls accumulate its trail: after any number of them
/// it is the last `HISTORY_LEN` of the places that all polls together report before the current
/// one.
pub proof fn trail_accumulates_over_polls(polls: Seq<(Seq<Json>, u128)>, id: Seq<char>)
    requires
        kept_in_sight(polls, id),
    ensures
        polled_all(polls).contains_key(id),
        all_reports_of(id, polls).len() > 0,
        polled_all(polls)[id].positions == newest(
            places(all_reports_of(id, polls)).drop_last(),
            HISTORY_LEN as nat,
        ),
        polled_all(polls)[id].last_pos == Some(all_reports_of(id, polls).last().0),
{
    trail_follows_all_polls(polls, id);
    trail_is_the_last_places(polls[0].1, all_reports_of(id, polls));
}

proof fn trail_follows_all_polls(polls: Seq<(Seq<Json>, u128)>, id: Seq<char>)
    requires
        kept_in_sight(polls, id),
    ensures
        polled_all(polls).contains_key(id),
        all_reports_of(id, polls).len() > 0,
        polled_all(polls)[id] == followed(no_trail(polls[0].1), all_reports_of(id, polls)),
    decreases polls.len(),
{
    let rest = polls.drop_last();
    let (aircraft, now) = polls.last();
    let reports = reports_of(id, aircraft, now);
    trail_follows_own_reports(polled_all(rest), aircraft, now, id);
    reports_carry_the_time(id, aircraft, now);
    if rest.len() > 0 {
        assert forall|k: int| 0 < k < rest.len() implies #[trigger] still_in_sight(rest, id, k) by {
            assert(still_in_sight(polls, id, k));
            assert(rest.take(k) =~= polls.take(k));
        }
        assert(polls.take(rest.len() as int) =~= rest);
        assert(still_in_sight(polls, id, rest.len() as int));
        trail_follows_all_polls(rest, id);
        followed_in_two_parts(no_trail(polls[0].1), all_reports_of(id, rest), reports);
        if reports.len() == 0 {
            assert(reports =~= Seq::empty());
        }
    } else {
        assert(all_reports_of(id, rest) =~= Seq::empty());
        assert(all_reports_of(id, polls) =~= reports);
    }
}

} // verus!
