//! The trails of the aircraft: where each was before, for as long as it is heard of.
use crate::aircraft::{aircraft_id, aircraft_position, id_of, sighting, Fix, Position};
use crate::ieee::{float_eq, num_eq};
use crate::json::{documents, float_json, Json, Record};
use crate::text::same_text;
use std::collections::VecDeque;
use vstd::prelude::*;

verus! {

/// How many previous positions a trail keeps.
pub const HISTORY_LEN: usize = 10;

/// For how many seconds a trail is kept after its aircraft was last seen.
pub const HISTORY_STALE_S: u128 = 30;

/// Nanoseconds in a second.
pub const NANOS_PER_S: u128 = 1_000_000_000;

/// A trail: the previous positions, oldest first, the current position, which is not among them,
/// and when the aircraft was last seen, in nanoseconds on the relay's clock.
pub struct TrailState {
    pub positions: Seq<Fix>,
    pub last_pos: Option<Fix>,
    pub last_seen: u128,
}

/// Whether two positions are at the same coordinates. The altitude does not matter.
pub open spec fn same_place(a: Fix, b: Fix) -> bool {
    num_eq(a.lat, b.lat) && num_eq(a.lon, b.lon)
}

/// The last `n` items.
pub open spec fn newest<T>(s: Seq<T>, n: nat) -> Seq<T> {
    if s.len() > n {
        s.skip(s.len() - n)
    } else {
        s
    }
}

/// The trail of an aircraft that nothing is known of yet.
pub open spec fn no_trail(now: u128) -> TrailState {
    TrailState { positions: Seq::empty(), last_pos: None, last_seen: now }
}

/// The trail once the aircraft is reported at `fix`. A move puts the position that was current
/// until then at the end of the previous ones, of which the newest are kept.
pub open spec fn extended(trail: TrailState, fix: Fix, now: u128) -> TrailState {
    TrailState {
        positions: match trail.last_pos {
            Some(prev) if !same_place(prev, fix) => newest(
                trail.positions.push(prev),
                HISTORY_LEN as nat,
            ),
            _ => trail.positions,
        },
        last_pos: Some(fix),
        last_seen: now,
    }
}

/// The positions of a trail one after the other, the current one at the end.
pub open spec fn path(trail: TrailState) -> Seq<Fix> {
    match trail.last_pos {
        Some(fix) => trail.positions.push(fix),
        None => trail.positions,
    }
}

/// A trail keeps at most `HISTORY_LEN` previous positions, and every position is at another place
/// than the one before it. So the current position is never repeated as the newest of the
/// previous ones.
pub open spec fn valid_trail(trail: TrailState) -> bool {
    &&& trail.positions.len() <= HISTORY_LEN
    &&& trail.last_pos is None ==> trail.positions.len() == 0
    &&& forall|i: int, j: int|
        #![trigger path(trail)[i], path(trail)[j]]
        0 <= i < path(trail).len() && j == i + 1 && j < path(trail).len() ==> !same_place(
            path(trail)[i],
            path(trail)[j],
        )
}

/// What is sent out of a trail: the previous positions as pairs of latitude and longitude,
/// oldest first.
pub open spec fn history_json(trail: TrailState) -> Json {
    Json::Array(trail.positions.map_values(|fix: Fix| pair_json(fix)))
}

pub open spec fn pair_json(fix: Fix) -> Json {
    Json::Array(seq![float_json(fix.lat), float_json(fix.lon)])
}

/// A report keeps a trail valid.
pub proof fn extended_trail_is_valid(trail: TrailState, fix: Fix, now: u128)
    requires
        valid_trail(trail),
    ensures
        valid_trail(extended(trail, fix, now)),
{
    let next = extended(trail, fix, now);
    assert forall|i: int, j: int|
        #![trigger path(next)[i], path(next)[j]]
        0 <= i < path(next).len() && j == i + 1 && j < path(next).len() implies !same_place(
        path(next)[i],
        path(next)[j],
    ) by {
        if let Some(prev) = trail.last_pos {
            let before = path(trail);
            if !same_place(prev, fix) {
                let gone = before.len() + 1 - path(next).len();
                assert(gone >= 0);
                if j < path(next).len() - 1 {
                    assert(path(next)[i] == before[i + gone]);
                    assert(path(next)[j] == before[j + gone]);
                }
            } else {
                assert(path(next)[i] == before[i]);
                if j < path(next).len() - 1 {
                    assert(path(next)[j] == before[j]);
                } else {
                    assert(before[j] == prev);
                }
            }
        }
    }
}

/// One aircraft's trail.
pub struct Trail {
    positions: VecDeque<Position>,
    last_pos: Option<Position>,
    last_seen: u128,
}

impl View for Trail {
    type V = TrailState;

    closed spec fn view(&self) -> TrailState {
        TrailState {
            positions: self.positions@.map_values(|p: Position| p@),
            last_pos: match self.last_pos {
                Some(p) => Some(p@),
                None => None,
            },
            last_seen: self.last_seen,
        }
    }
}

impl Trail {
    /// Every position is well formed, and the trail is valid.
    pub closed spec fn wf(self) -> bool {
        &&& valid_trail(self@)
        &&& forall|i: int| 0 <= i < self.positions@.len() ==> (#[trigger] self.positions@[i]).wf()
        &&& self.last_pos matches Some(p) ==> p.wf()
    }

    /// The trail of an aircraft that nothing is known of yet.
    pub fn new(now: u128) -> (r: Trail)
        ensures
            r.wf(),
            r@ == no_trail(now),
    {
        let r = Trail { positions: VecDeque::new(), last_pos: None, last_seen: now };
        assert(r@.positions =~= Seq::empty());
        r
    }

    /// Takes in that the aircraft is reported at `pos`.
    pub fn extend(&mut self, pos: Position, now: u128)
        requires
            old(self).wf(),
            pos.wf(),
        ensures
            final(self).wf(),
            final(self)@ == extended(old(self)@, pos@, now),
    {
        let ghost before = self@;
        proof {
            extended_trail_is_valid(before, pos@, now);
        }
        if let Some(prev) = self.last_pos.take() {
            let a = prev.fix();
            let b = pos.fix();
            if !(float_eq(a.lat, b.lat) && float_eq(a.lon, b.lon)) {
                let ghost full = self.positions@.push(prev);
                assert(full.map_values(|p: Position| p@) =~= before.positions.push(prev@));
                self.positions.push_back(prev);
                while self.positions.len() > HISTORY_LEN
                    invariant
                        self.positions@.len() <= full.len(),
                        self.positions@ =~= full.skip(full.len() - self.positions@.len()),
                        self.positions@.len() >= newest(full, HISTORY_LEN as nat).len(),
                    decreases self.positions@.len(),
                {
                    self.positions.pop_front();
                }
                assert(self.positions@ =~= newest(full, HISTORY_LEN as nat));
                assert(self.positions@.map_values(|p: Position| p@) =~= newest(
                    full.map_values(|p: Position| p@),
                    HISTORY_LEN as nat,
                ));
            }
        }
        self.last_pos = Some(pos);
        self.last_seen = now;
    }

    /// Whether a report continues the trail.
    pub fn is_continued(&self, now: u128) -> (r: bool)
        ensures
            r == continues(self@, now),
    {
        now <= self.last_seen || now - self.last_seen <= HISTORY_STALE_S * NANOS_PER_S
    }

    /// Whether the trail is still kept at the end of a poll.
    pub fn is_fresh(&self, now: u128) -> (r: bool)
        ensures
            r == fresh(self@, now),
    {
        let age: u128 = if now >= self.last_seen {
            now - self.last_seen
        } else {
            0
        };
        age / NANOS_PER_S < HISTORY_STALE_S
    }

    /// What is sent out of the trail.
    pub fn to_json(&self) -> (r: Record)
        requires
            self.wf(),
        ensures
            r@ == history_json(self@),
    {
        let mut pairs: Vec<Record> = Vec::new();
        let n: usize = self.positions.len();
        for i in 0..n
            invariant
                self.wf(),
                n == self.positions@.len(),
                pairs.len() == i,
                forall|j: int| 0 <= j < i ==> pairs[j]@ == pair_json(self.positions@[j]@),
        {
            let p = &self.positions[i];
            let mut pair: Vec<Record> = Vec::new();
            pair.push(p.lat.duplicate());
            pair.push(p.lon.duplicate());
            assert(documents(pair@) =~= seq![float_json(p@.lat), float_json(p@.lon)]);
            pairs.push(Record::array(pair));
        }
        assert(documents(pairs@) =~= self@.positions.map_values(|fix: Fix| pair_json(fix)));
        Record::array(pairs)
    }
}

/// The trails by the identities of their aircraft.
pub type Trails = Map<Seq<char>, TrailState>;

/// How long ago the aircraft was seen, in whole seconds. A time to come counts as now.
pub open spec fn unseen_s(trail: TrailState, now: u128) -> int {
    if now >= trail.last_seen {
        (now - trail.last_seen) / NANOS_PER_S as int
    } else {
        0
    }
}

/// Whether the trail is still kept at the end of a poll.
pub open spec fn fresh(trail: TrailState, now: u128) -> bool {
    unseen_s(trail, now) < HISTORY_STALE_S
}

/// Whether a report continues the trail: its aircraft was not unseen for more than
/// `HISTORY_STALE_S` seconds.
pub open spec fn continues(trail: TrailState, now: u128) -> bool {
    now - trail.last_seen <= HISTORY_STALE_S * NANOS_PER_S
}

/// The trail that an aircraft's next report continues: its own, unless it was unseen for too long.
pub open spec fn current(trails: Trails, id: Seq<char>, now: u128) -> TrailState {
    if trails.contains_key(id) && continues(trails[id], now) {
        trails[id]
    } else {
        no_trail(now)
    }
}

/// The trails once one record is taken in. A record without identity or position changes none.
pub open spec fn observed(trails: Trails, ac: Json, now: u128) -> Trails {
    match sighting(ac) {
        Some((id, fix)) => trails.insert(id, extended(current(trails, id, now), fix, now)),
        None => trails,
    }
}

/// The trails once a list of records is taken in, one after the other.
pub open spec fn observed_all(trails: Trails, aircraft: Seq<Json>, now: u128) -> Trails
    decreases aircraft.len(),
{
    if aircraft.len() == 0 {
        trails
    } else {
        observed(observed_all(trails, aircraft.drop_last(), now), aircraft.last(), now)
    }
}

/// The record with its aircraft's trail. The list is empty where no trail is known.
pub open spec fn with_history(trails: Trails, ac: Json, now: u128) -> Json {
    ac.with(
        "mc_history"@,
        history_json(
            match id_of(ac) {
                Some(id) => current(trails, id, now),
                None => no_trail(now),
            },
        ),
    )
}

/// The records with their trails: each has the trail as it is when the records up to this one
/// are taken in.
pub open spec fn with_histories(trails: Trails, aircraft: Seq<Json>, now: u128) -> Seq<Json> {
    Seq::new(
        aircraft.len(),
        |i: int| with_history(observed_all(trails, aircraft.take(i + 1), now), aircraft[i], now),
    )
}

/// The trails that are still kept.
pub open spec fn pruned(trails: Trails, now: u128) -> Trails {
    Map::new(
        |id: Seq<char>| trails.contains_key(id) && fresh(trails[id], now),
        |id: Seq<char>| trails[id],
    )
}

struct Entry {
    id: String,
    trail: Trail,
}

/// The trails of all aircraft that are heard of.
pub struct History {
    entries: Vec<Entry>,
}

spec fn trails_of(entries: Seq<Entry>) -> Trails
    decreases entries.len(),
{
    if entries.len() == 0 {
        Map::empty()
    } else {
        trails_of(entries.drop_last()).insert(entries.last().id@, entries.last().trail@)
    }
}

spec fn distinct(entries: Seq<Entry>) -> bool {
    forall|i: int, j: int|
        0 <= i < j < entries.len() ==> (#[trigger] entries[i]).id@ != (#[trigger] entries[j]).id@
}

proof fn trails_of_lookup(entries: Seq<Entry>)
    requires
        distinct(entries),
    ensures
        forall|i: int|
            0 <= i < entries.len() ==> trails_of(entries).contains_key(
                (#[trigger] entries[i]).id@,
            ) && trails_of(entries)[entries[i].id@] == entries[i].trail@,
        forall|id: Seq<char>| #[trigger]
            trails_of(entries).contains_key(id) ==> exists|i: int|
                0 <= i < entries.len() && (#[trigger] entries[i]).id@ == id,
    decreases entries.len(),
{
    if entries.len() > 0 {
        let rest = entries.drop_last();
        trails_of_lookup(rest);
        assert forall|i: int| 0 <= i < entries.len() implies trails_of(entries).contains_key(
            (#[trigger] entries[i]).id@,
        ) && trails_of(entries)[entries[i].id@] == entries[i].trail@ by {
            if i < rest.len() {
                assert(rest[i] == entries[i]);
            }
        }
        assert forall|id: Seq<char>| #[trigger]
            trails_of(entries).contains_key(id) implies exists|i: int|
            0 <= i < entries.len() && (#[trigger] entries[i]).id@ == id by {
            if id == entries.last().id@ {
                assert(entries[entries.len() - 1].id@ == id);
            } else {
                assert(trails_of(rest).contains_key(id));
                let i = choose|i: int| 0 <= i < rest.len() && (#[trigger] rest[i]).id@ == id;
                assert(entries[i].id@ == id);
            }
        }
    }
}

proof fn trails_of_push(entries: Seq<Entry>, e: Entry)
    ensures
        trails_of(entries.push(e)) == trails_of(entries).insert(e.id@, e.trail@),
{
    assert(entries.push(e).drop_last() =~= entries);
}

proof fn trails_of_update(entries: Seq<Entry>, i: int, e: Entry)
    requires
        0 <= i < entries.len(),
        distinct(entries),
        e.id@ == entries[i].id@,
    ensures
        distinct(entries.update(i, e)),
        trails_of(entries.update(i, e)) == trails_of(entries).insert(e.id@, e.trail@),
{
    let updated = entries.update(i, e);
    assert forall|a: int, b: int| 0 <= a < b < updated.len() implies (#[trigger] updated[a]).id@
        != (#[trigger] updated[b]).id@ by {
        assert(entries[a].id@ != entries[b].id@);
    }
    trails_of_lookup(entries);
    trails_of_lookup(updated);
    assert forall|id: Seq<char>| #[trigger]
        trails_of(updated).contains_key(id) == trails_of(entries).contains_key(id) by {
        if trails_of(updated).contains_key(id) {
            let k = choose|k: int| 0 <= k < updated.len() && (#[trigger] updated[k]).id@ == id;
            assert(entries[k].id@ == id);
        }
        if trails_of(entries).contains_key(id) {
            let k = choose|k: int| 0 <= k < entries.len() && (#[trigger] entries[k]).id@ == id;
            assert(updated[k].id@ == id);
        }
    }
    assert forall|id: Seq<char>| #[trigger]
        trails_of(updated).contains_key(id) implies trails_of(updated)[id] == trails_of(
        entries,
    ).insert(e.id@, e.trail@)[id] by {
        let k = choose|k: int| 0 <= k < updated.len() && (#[trigger] updated[k]).id@ == id;
        assert(entries[k].id@ == id);
        if k != i {
            assert(id != e.id@) by {
                if k < i {
                    assert(entries[k].id@ != entries[i].id@);
                } else {
                    assert(entries[i].id@ != entries[k].id@);
                }
            }
        }
    }
    assert(trails_of(entries).contains_key(entries[i].id@));
    assert(trails_of(updated) =~= trails_of(entries).insert(e.id@, e.trail@));
}

proof fn trails_of_swap_remove(entries: Seq<Entry>, i: int)
    requires
        0 <= i < entries.len(),
        distinct(entries),
    ensures
        distinct(entries.update(i, entries.last()).drop_last()),
        trails_of(entries.update(i, entries.last()).drop_last()) == trails_of(entries).remove(
            entries[i].id@,
        ),
{
    let left = entries.update(i, entries.last()).drop_last();
    let source = |k: int| if k == i { entries.len() - 1 } else { k };
    assert forall|a: int, b: int| 0 <= a < b < left.len() implies (#[trigger] left[a]).id@ != (
    #[trigger] left[b]).id@ by {
        assert(left[a] == entries[source(a)] && left[b] == entries[source(b)]);
    }
    trails_of_lookup(entries);
    trails_of_lookup(left);
    assert forall|k: int| 0 <= k < entries.len() && k != i implies (#[trigger] entries[k]).id@
        != entries[i].id@ by {}
    assert forall|id: Seq<char>| #[trigger]
        trails_of(left).contains_key(id) implies trails_of(entries).contains_key(id) && id
        != entries[i].id@ && trails_of(left)[id] == trails_of(entries)[id] by {
        let k = choose|k: int| 0 <= k < left.len() && (#[trigger] left[k]).id@ == id;
        assert(left[k] == entries[source(k)]);
    }
    assert forall|id: Seq<char>| #[trigger]
        trails_of(entries).contains_key(id) && id != entries[i].id@ implies trails_of(
        left,
    ).contains_key(id) by {
        let k = choose|k: int| 0 <= k < entries.len() && (#[trigger] entries[k]).id@ == id;
        if k == entries.len() - 1 {
            assert(left[i].id@ == id);
        } else {
            assert(left[k].id@ == id);
        }
    }
    assert(trails_of(left) =~= trails_of(entries).remove(entries[i].id@));
}

impl View for History {
    type V = Trails;

    closed spec fn view(&self) -> Trails {
        trails_of(self.entries@)
    }
}

impl History {
    /// Every aircraft has one trail, and every trail is well formed.
    pub closed spec fn wf(self) -> bool {
        &&& distinct(self.entries@)
        &&& forall|i: int| 0 <= i < self.entries@.len() ==> (#[trigger] self.entries@[i]).trail.wf()
    }

    /// No trails.
    pub fn new() -> (r: History)
        ensures
            r.wf(),
            r@ == Trails::empty(),
    {
        History { entries: Vec::new() }
    }

    fn find(&self, id: &str) -> (r: Option<usize>)
        requires
            self.wf(),
        ensures
            match r {
                Some(i) => i < self.entries@.len() && self.entries@[i as int].id@ == id@,
                None => !self@.contains_key(id@),
            },
    {
        let n: usize = self.entries.len();
        for i in 0..n
            invariant
                n == self.entries@.len(),
                forall|j: int| 0 <= j < i ==> (#[trigger] self.entries@[j]).id@ != id@,
        {
            if same_text(self.entries[i].id.as_str(), id) {
                return Some(i);
            }
        }
        proof {
            trails_of_lookup(self.entries@);
        }
        None
    }

    /// Takes in that an aircraft is reported at `pos`, and tells the list that it then has.
    fn observe(&mut self, id: String, pos: Position, now: u128) -> (r: Record)
        requires
            old(self).wf(),
            pos.wf(),
        ensures
            final(self).wf(),
            final(self)@ == old(self)@.insert(
                id@,
                extended(current(old(self)@, id@, now), pos@, now),
            ),
            r@ == history_json(final(self)@[id@]),
    {
        let ghost before = self.entries@;
        proof {
            trails_of_lookup(before);
        }
        match self.find(id.as_str()) {
            Some(i) => {
                let entry = &mut self.entries[i];
                if !entry.trail.is_continued(now) {
                    entry.trail = Trail::new(now);
                }
                entry.trail.extend(pos, now);
                let r = entry.trail.to_json();
                proof {
                    trails_of_update(before, i as int, self.entries@[i as int]);
                    assert(self.entries@ =~= before.update(i as int, self.entries@[i as int]));
                }
                r
            },
            None => {
                let mut trail = Trail::new(now);
                trail.extend(pos, now);
                let r = trail.to_json();
                proof {
                    trails_of_push(before, Entry { id, trail });
                }
                self.entries.push(Entry { id, trail });
                r
            },
        }
    }

    /// The list of an aircraft that is not reported with a position.
    fn recall(&self, id: &str, now: u128) -> (r: Record)
        requires
            self.wf(),
        ensures
            r@ == history_json(current(self@, id@, now)),
    {
        proof {
            trails_of_lookup(self.entries@);
        }
        if let Some(i) = self.find(id) {
            if self.entries[i].trail.is_continued(now) {
                return self.entries[i].trail.to_json();
            }
        }
        Trail::new(now).to_json()
    }

    /// Drops the trails of the aircraft that were not seen for `HISTORY_STALE_S` seconds.
    fn prune(&mut self, now: u128)
        requires
            old(self).wf(),
        ensures
            final(self).wf(),
            final(self)@ == pruned(old(self)@, now),
    {
        let mut rest: Vec<Entry> = Vec::new();
        std::mem::swap(&mut rest, &mut self.entries);
        let ghost all = trails_of(rest@);
        while rest.len() > 0
            invariant
                distinct(rest@),
                distinct(self.entries@),
                forall|i: int, j: int|
                    0 <= i < rest@.len() && 0 <= j < self.entries@.len() ==> (#[trigger] rest@[i]).id@
                        != (#[trigger] self.entries@[j]).id@,
                forall|i: int| 0 <= i < rest@.len() ==> (#[trigger] rest@[i]).trail.wf(),
                forall|i: int|
                    0 <= i < self.entries@.len() ==> (#[trigger] self.entries@[i]).trail.wf(),
                pruned(all, now) =~= trails_of(self.entries@).union_prefer_right(
                    pruned(trails_of(rest@), now),
                ),
            decreases rest.len(),
        {
            let ghost kept = self.entries@;
            let ghost before = rest@;
            proof {
                trails_of_lookup(before);
                trails_of_lookup(kept);
            }
            if let Some(e) = rest.pop() {
                proof {
                    trails_of_lookup(rest@);
                    trails_of_push(rest@, e);
                    trails_of_push(kept, e);
                    assert(before =~= rest@.push(e));
                    assert(before[before.len() - 1] == e);
                    assert(!trails_of(rest@).contains_key(e.id@));
                    assert(!trails_of(kept).contains_key(e.id@));
                }
                if e.trail.is_fresh(now) {
                    self.entries.push(e);
                }
                assert(trails_of(self.entries@).union_prefer_right(pruned(trails_of(rest@), now))
                    =~= trails_of(kept).union_prefer_right(pruned(trails_of(before), now)));
            }
        }
        assert(self@ =~= pruned(all, now));
    }

    /// Forgets the trail of one aircraft.
    pub fn remove(&mut self, id: &str)
        requires
            old(self).wf(),
        ensures
            final(self).wf(),
            final(self)@ == old(self)@.remove(id@),
    {
        let ghost before = self.entries@;
        proof {
            trails_of_lookup(before);
        }
        match self.find(id) {
            Some(i) => {
                let _ = self.entries.swap_remove(i);
                proof {
                    trails_of_swap_remove(before, i as int);
                }
            },
            None => {
                assert(self@ =~= trails_of(before).remove(id@));
            },
        }
    }
}

/// Takes the records of one poll into the trails, and sets `mc_history` in each record: the
/// previous positions of its aircraft, oldest first, without the current one, and an empty list
/// where no trail is known. A trail whose aircraft was unseen for more than `HISTORY_STALE_S`
/// seconds is not continued. In the end the trails of the aircraft that were not seen for that
/// long are dropped.
pub fn update_history(history: &mut History, aircraft: &mut Vec<Record>, now: u128)
    requires
        old(history).wf(),
    ensures
        final(history).wf(),
        final(history)@ == pruned(
            observed_all(old(history)@, documents(old(aircraft)@), now),
            now,
        ),
        documents(final(aircraft)@) == with_histories(
            old(history)@,
            documents(old(aircraft)@),
            now,
        ),
{
    let ghost trails = history@;
    let ghost all = documents(aircraft@);
    let n: usize = aircraft.len();
    assert(all.take(0) =~= Seq::empty());
    for i in 0..n
        invariant
            history.wf(),
            n == all.len(),
            aircraft@.len() == n,
            history@ == observed_all(trails, all.take(i as int), now),
            forall|j: int| i <= j < n ==> (#[trigger] aircraft@[j])@ == all[j],
            forall|j: int|
                0 <= j < i ==> (#[trigger] aircraft@[j])@ == with_histories(trails, all, now)[j],
    {
        assert(all.take(i + 1).drop_last() =~= all.take(i as int));
        assert(all.take(i + 1).last() == all[i as int]);
        let list = match aircraft_id(&aircraft[i]) {
            Some(id) => match aircraft_position(&aircraft[i]) {
                Some(pos) => history.observe(id, pos, now),
                None => history.recall(id.as_str(), now),
            },
            None => Trail::new(now).to_json(),
        };
        aircraft[i].set("mc_history", list);
    }
    assert(all.take(n as int) =~= all);
    assert(documents(aircraft@) =~= with_histories(trails, all, now));
    history.prune(now);
}

/// Every trail that a history holds is valid.
pub proof fn history_holds_valid_trails(history: History, id: Seq<char>)
    requires
        history.wf(),
        history@.contains_key(id),
    ensures
        valid_trail(history@[id]),
{
    trails_of_lookup(history.entries@);
    let i = choose|i: int|
        0 <= i < history.entries@.len() && (#[trigger] history.entries@[i]).id@ == id;
    assert(history.entries@[i].trail.wf());
}

} // verus!
