//! What one poll makes of the trails, by the records before and after it.
use crate::aircraft::{fix_of, id_of, Fix};
use crate::history::{
    extended, history_json, no_trail, observed_all, pruned, with_histories, TrailState, Trails,
};
use crate::ieee::num_eq;
use crate::json::Json;
use vstd::prelude::*;

verus! {

/// Whether the record reports the aircraft with this identity: it has the identity and a position.
pub open spec fn reports(ac: Json, id: Seq<char>) -> bool {
    id_of(ac) == Some(id) && fix_of(ac) is Some
}

/// Whether the list in a record holds just these positions, in this order, each as an array of two
/// doubles, the latitude and the longitude.
pub open spec fn lists(list: Option<Json>, positions: Seq<Fix>) -> bool {
    &&& list is Some
    &&& list->0 is Array
    &&& list->0->Array_0.len() == positions.len()
    &&& forall|k: int|
        0 <= k < positions.len() ==> #[trigger] list->0->Array_0[k] == pair(positions[k])
}

/// A position as an array of two doubles, the latitude and the longitude.
pub open spec fn pair(fix: Fix) -> Json {
    Json::Array(
        seq![
            Json::Number { bits: fix.lat, exact: None },
            Json::Number { bits: fix.lon, exact: None },
        ],
    )
}

/// The last ten items.
pub open spec fn last_ten<T>(items: Seq<T>) -> Seq<T> {
    items.subrange(
        if items.len() > 10 {
            items.len() - 10
        } else {
            0
        },
        items.len() as int,
    )
}

/// Whether the trail is one that its aircraft's next report continues: the aircraft was seen at
/// most 30 seconds ago.
pub open spec fn continued(trails: Trails, id: Seq<char>, now: u128) -> bool {
    trails.contains_key(id) && now <= trails[id].last_seen + 30_000_000_000
}

/// A trail is sent as a list with as many elements as it has previous positions. Each element is
/// the array of the latitude and the longitude, as doubles, of the position with the same index.
pub proof fn list_has_the_positions_in_order(trail: TrailState)
    ensures
        lists(Some(history_json(trail)), trail.positions),
{
}

/// An aircraft that nothing is known of has no positions, neither previous ones nor a current one.
pub proof fn unknown_aircraft_has_no_positions(now: u128)
    ensures
        no_trail(now).positions.len() == 0,
        no_trail(now).last_pos is None,
        no_trail(now).last_seen == now,
{
}

/// A report makes its position the current one, and its time the time when the aircraft was last
/// seen. If the aircraft has moved, the position that was current until then becomes the last of
/// the previous ones, and only the last ten of them are kept. If its coordinates are the same, or
/// there was no current position, the previous ones stay as they are.
pub proof fn report_extends_the_trail(trail: TrailState, fix: Fix, now: u128)
    ensures
        extended(trail, fix, now).last_pos == Some(fix),
        extended(trail, fix, now).last_seen == now,
        trail.last_pos is None ==> extended(trail, fix, now).positions == trail.positions,
        trail.last_pos matches Some(prev) ==> {
            if num_eq(prev.lat, fix.lat) && num_eq(prev.lon, fix.lon) {
                extended(trail, fix, now).positions == trail.positions
            } else {
                extended(trail, fix, now).positions == last_ten(trail.positions.push(prev))
            }
        },
{
    if let Some(prev) = trail.last_pos {
        let full = trail.positions.push(prev);
        assert(last_ten(full) =~= if full.len() > 10 {
            full.skip(full.len() - 10)
        } else {
            full
        });
    }
}

proof fn unreported_trail_stays(trails: Trails, aircraft: Seq<Json>, now: u128, id: Seq<char>)
    requires
        forall|j: int| 0 <= j < aircraft.len() ==> !reports(#[trigger] aircraft[j], id),
    ensures
        observed_all(trails, aircraft, now).contains_key(id) == trails.contains_key(id),
        trails.contains_key(id) ==> observed_all(trails, aircraft, now)[id] == trails[id],
    decreases aircraft.len(),
{
    if aircraft.len() > 0 {
        let rest = aircraft.drop_last();
        assert forall|j: int| 0 <= j < rest.len() implies !reports(#[trigger] rest[j], id) by {
            assert(rest[j] == aircraft[j]);
        }
        assert(!reports(aircraft[aircraft.len() - 1], id));
        unreported_trail_stays(trails, rest, now, id);
    }
}

proof fn last_report_sets_the_trail(
    trails: Trails,
    aircraft: Seq<Json>,
    now: u128,
    j: int,
    id: Seq<char>,
)
    requires
        0 <= j < aircraft.len(),
        reports(aircraft[j], id),
        forall|k: int| j < k < aircraft.len() ==> !reports(#[trigger] aircraft[k], id),
    ensures
        observed_all(trails, aircraft, now).contains_key(id),
        observed_all(trails, aircraft, now)[id] == observed_all(
            trails,
            aircraft.take(j + 1),
            now,
        )[id],
        observed_all(trails, aircraft, now)[id].last_pos == fix_of(aircraft[j]),
        observed_all(trails, aircraft, now)[id].last_seen == now,
    decreases aircraft.len(),
{
    let rest = aircraft.drop_last();
    if j == aircraft.len() - 1 {
        assert(aircraft.take(j + 1) =~= aircraft);
    } else {
        assert forall|k: int| j < k < rest.len() implies !reports(#[trigger] rest[k], id) by {
            assert(rest[k] == aircraft[k]);
        }
        assert(!reports(aircraft[aircraft.len() - 1], id));
        last_report_sets_the_trail(trails, rest, now, j, id);
        assert(rest.take(j + 1) =~= aircraft.take(j + 1));
    }
}

/// A record that is the first of a poll to report its aircraft has the list of the trail that the
/// aircraft had before the poll, and the position that was current until then at its end if the
/// aircraft has moved; the last ten of these. Where the aircraft had no trail, or was last seen
/// more than 30 seconds ago, the list is empty.
pub proof fn first_report_lists_the_trail_so_far(
    trails: Trails,
    aircraft: Seq<Json>,
    now: u128,
    i: int,
    id: Seq<char>,
    fix: Fix,
)
    requires
        0 <= i < aircraft.len(),
        id_of(aircraft[i]) == Some(id),
        fix_of(aircraft[i]) == Some(fix),
        forall|j: int| 0 <= j < i ==> !reports(#[trigger] aircraft[j], id),
    ensures
        ({
            let list = with_histories(trails, aircraft, now)[i].field("mc_history"@);
            &&& !continued(trails, id, now) ==> list == Some(Json::Array(Seq::empty()))
            &&& continued(trails, id, now) ==> match trails[id].last_pos {
                Some(prev) => if num_eq(prev.lat, fix.lat) && num_eq(prev.lon, fix.lon) {
                    lists(list, trails[id].positions)
                } else {
                    lists(list, last_ten(trails[id].positions.push(prev)))
                },
                None => lists(list, trails[id].positions),
            }
        }),
{
    let seen = aircraft.take(i + 1);
    let earlier = seen.drop_last();
    assert forall|j: int| 0 <= j < earlier.len() implies !reports(#[trigger] earlier[j], id) by {
        assert(earlier[j] == aircraft[j]);
    }
    assert(seen.last() == aircraft[i]);
    unreported_trail_stays(trails, earlier, now, id);
    let trail = observed_all(trails, seen, now)[id];
    let before = if continued(trails, id, now) {
        trails[id]
    } else {
        no_trail(now)
    };
    report_extends_the_trail(before, fix, now);
    assert(trail == extended(before, fix, now));
    list_has_the_positions_in_order(trail);
    if !continued(trails, id, now) {
        assert(history_json(trail)->Array_0 =~= Seq::empty());
    }
}

/// A record that reports an aircraft again in the same poll has the list of the report before it,
/// with the position of that report at its end if the aircraft has moved since; the last ten of
/// these.
pub proof fn later_report_continues_the_list(
    trails: Trails,
    aircraft: Seq<Json>,
    now: u128,
    j: int,
    i: int,
    id: Seq<char>,
    prev: Fix,
    fix: Fix,
)
    requires
        0 <= j < i < aircraft.len(),
        id_of(aircraft[j]) == Some(id),
        fix_of(aircraft[j]) == Some(prev),
        id_of(aircraft[i]) == Some(id),
        fix_of(aircraft[i]) == Some(fix),
        forall|k: int| j < k < i ==> !reports(#[trigger] aircraft[k], id),
    ensures
        ({
            let before = with_histories(trails, aircraft, now)[j].field("mc_history"@);
            let list = with_histories(trails, aircraft, now)[i].field("mc_history"@);
            &&& before is Some
            &&& before->0 is Array
            &&& list == Some(
                if num_eq(prev.lat, fix.lat) && num_eq(prev.lon, fix.lon) {
                    before->0
                } else {
                    Json::Array(last_ten(before->0->Array_0.push(pair(prev))))
                },
            )
        }),
{
    let seen = aircraft.take(i + 1);
    let earlier = seen.drop_last();
    assert forall|k: int| j < k < earlier.len() implies !reports(#[trigger] earlier[k], id) by {
        assert(earlier[k] == aircraft[k]);
    }
    assert(seen.last() == aircraft[i]);
    last_report_sets_the_trail(trails, earlier, now, j, id);
    assert(earlier.take(j + 1) =~= aircraft.take(j + 1));
    assert(aircraft.take(j + 1).last() == aircraft[j]);
    let trail = observed_all(trails, earlier, now)[id];
    let next = observed_all(trails, seen, now)[id];
    assert(next == extended(trail, fix, now));
    report_extends_the_trail(trail, fix, now);
    list_has_the_positions_in_order(trail);
    list_has_the_positions_in_order(next);
    let before = history_json(trail)->Array_0;
    assert(with_histories(trails, aircraft, now)[j].field("mc_history"@) == Some(
        Json::Array(before),
    ));
    if num_eq(prev.lat, fix.lat) && num_eq(prev.lon, fix.lon) {
        assert(history_json(next)->Array_0 =~= before);
    } else {
        assert(history_json(next)->Array_0 =~= last_ten(before.push(pair(prev))));
    }
}

/// A record that has an identity and no position has the list that its aircraft was last reported
/// with in the same poll. If no record before it reports the aircraft, it has the list of the trail
/// from before the poll, and an empty one where there is none or the aircraft was last seen more
/// than 30 seconds ago.
pub proof fn record_without_position_repeats_the_list(
    trails: Trails,
    aircraft: Seq<Json>,
    now: u128,
    i: int,
    id: Seq<char>,
)
    requires
        0 <= i < aircraft.len(),
        id_of(aircraft[i]) == Some(id),
        fix_of(aircraft[i]) is None,
    ensures
        ({
            let list = with_histories(trails, aircraft, now)[i].field("mc_history"@);
            &&& (forall|j: int| 0 <= j < i ==> !reports(#[trigger] aircraft[j], id)) ==> {
                &&& continued(trails, id, now) ==> lists(list, trails[id].positions)
                &&& !continued(trails, id, now) ==> list == Some(Json::Array(Seq::empty()))
            }
            &&& forall|j: int|
                0 <= j < i && reports(#[trigger] aircraft[j], id) && (forall|k: int|
                    j < k < i ==> !reports(#[trigger] aircraft[k], id)) ==> list == with_histories(
                    trails,
                    aircraft,
                    now,
                )[j].field("mc_history"@)
        }),
{
    let seen = aircraft.take(i + 1);
    let trail = observed_all(trails, seen, now)[id];
    let list = with_histories(trails, aircraft, now)[i].field("mc_history"@);
    if forall|j: int| 0 <= j < i ==> !reports(#[trigger] aircraft[j], id) {
        assert forall|j: int| 0 <= j < seen.len() implies !reports(#[trigger] seen[j], id) by {
            assert(seen[j] == aircraft[j]);
        }
        unreported_trail_stays(trails, seen, now, id);
        if continued(trails, id, now) {
            list_has_the_positions_in_order(trails[id]);
        } else {
            assert(history_json(no_trail(now))->Array_0 =~= Seq::empty());
        }
    }
    assert forall|j: int|
        0 <= j < i && reports(#[trigger] aircraft[j], id) && (forall|k: int|
            j < k < i ==> !reports(#[trigger] aircraft[k], id)) implies list == with_histories(
        trails,
        aircraft,
        now,
    )[j].field("mc_history"@) by {
        assert forall|k: int| j < k < seen.len() implies !reports(#[trigger] seen[k], id) by {
            assert(seen[k] == aircraft[k]);
        }
        last_report_sets_the_trail(trails, seen, now, j, id);
        assert(seen.take(j + 1) =~= aircraft.take(j + 1));
        assert(aircraft.take(j + 1).last() == aircraft[j]);
    }
}

/// An object without an identity has an empty list. No field but `mc_history` changes, what is not
/// an object stays as it is, and there are as many records as before.
pub proof fn record_without_identity_has_an_empty_list(
    trails: Trails,
    aircraft: Seq<Json>,
    now: u128,
    i: int,
    key: Seq<char>,
)
    requires
        0 <= i < aircraft.len(),
    ensures
        with_histories(trails, aircraft, now).len() == aircraft.len(),
        aircraft[i] is Object && id_of(aircraft[i]) is None ==> with_histories(
            trails,
            aircraft,
            now,
        )[i].field("mc_history"@) == Some(Json::Array(Seq::empty())),
        key != "mc_history"@ ==> with_histories(trails, aircraft, now)[i].field(key)
            == aircraft[i].field(key),
        !(aircraft[i] is Object) ==> with_histories(trails, aircraft, now)[i] == aircraft[i],
{
    assert(history_json(no_trail(now))->Array_0 =~= Seq::empty());
}

/// After a poll an aircraft that it reports has the trail that its last report was sent with, with
/// that report's position as the current one and the time of the poll.
pub proof fn poll_keeps_what_it_sent(
    trails: Trails,
    aircraft: Seq<Json>,
    now: u128,
    j: int,
    id: Seq<char>,
)
    requires
        0 <= j < aircraft.len(),
        reports(aircraft[j], id),
        forall|k: int| j < k < aircraft.len() ==> !reports(#[trigger] aircraft[k], id),
    ensures
        ({
            let after = pruned(observed_all(trails, aircraft, now), now);
            &&& after.contains_key(id)
            &&& after[id].last_pos == fix_of(aircraft[j])
            &&& after[id].last_seen == now
            &&& lists(
                with_histories(trails, aircraft, now)[j].field("mc_history"@),
                after[id].positions,
            )
        }),
{
    last_report_sets_the_trail(trails, aircraft, now, j, id);
    assert(aircraft.take(j + 1).last() == aircraft[j]);
    list_has_the_positions_in_order(observed_all(trails, aircraft, now)[id]);
}

/// After a poll an aircraft that it does not report has the trail that it had, if it was seen less
/// than 30 seconds ago, and else none.
pub proof fn poll_drops_what_is_stale(
    trails: Trails,
    aircraft: Seq<Json>,
    now: u128,
    id: Seq<char>,
)
    requires
        forall|j: int| 0 <= j < aircraft.len() ==> !reports(#[trigger] aircraft[j], id),
    ensures
        ({
            let after = pruned(observed_all(trails, aircraft, now), now);
            &&& after.contains_key(id) <==> trails.contains_key(id) && now < trails[id].last_seen
                + 30_000_000_000
            &&& after.contains_key(id) ==> after[id] == trails[id]
        }),
{
    unreported_trail_stays(trails, aircraft, now, id);
}

} // verus!
