//! From proposals to incidents: each alert has a key, and a key that has fired is held back until
//! its cooldown is over.

use crate::calibration::UserClass;
use crate::graph::in_window;
use crate::incident::{incident_views, Incident, IncidentView};
use crate::time::{no_time_passes_at_once, Instant, Timestamp};
use vstd::hash_map::StringHashMap;
use vstd::prelude::*;

verus! {

broadcast use vstd::seq_lib::group_seq_properties;

/// An incident that a detector proposes, and the key under which repetitions of it are held back.
#[derive(Debug)]
pub struct Alert {
    pub key: String,
    pub incident: Incident,
}

/// What an [`Alert`] holds.
#[verifier::ext_equal]
pub struct AlertView {
    pub key: Seq<char>,
    pub incident: IncidentView,
}

impl View for Alert {
    type V = AlertView;

    open spec fn view(&self) -> AlertView {
        AlertView { key: self.key@, incident: self.incident@ }
    }
}

/// What a list of alerts holds.
pub open spec fn alert_views(alerts: Seq<Alert>) -> Seq<AlertView> {
    alerts.map_values(|a: Alert| a@)
}

/// What a list of proposals holds. A proposal is a list of alternatives, of which at most one is
/// to fire.
pub open spec fn proposal_views(proposals: Seq<Vec<Alert>>) -> Seq<Seq<AlertView>> {
    proposals.map_values(|p: Vec<Alert>| alert_views(p@))
}

/// The incidents of a list of alerts.
pub open spec fn incidents_of(alerts: Seq<AlertView>) -> Seq<IncidentView> {
    alerts.map_values(|a: AlertView| a.incident)
}

/// The keys of a list of alerts.
pub open spec fn keys_of(alerts: Seq<AlertView>) -> Seq<Seq<char>> {
    alerts.map_values(|a: AlertView| a.key)
}

/// When each key fired last.
pub type Fired = Map<Seq<char>, Instant>;

/// The key fired less than `cooldown` seconds before `now`.
pub open spec fn cooling(fired: Fired, key: Seq<char>, now: Instant, cooldown: int) -> bool {
    fired.contains_key(key) && in_window(fired[key], now, cooldown)
}

/// The first of the alternatives whose key is not cooling down.
pub open spec fn first_open(
    fired: Fired,
    alternatives: Seq<AlertView>,
    now: Instant,
    cooldown: int,
) -> Option<AlertView>
    decreases alternatives.len(),
{
    if alternatives.len() == 0 {
        None
    } else {
        match first_open(fired, alternatives.drop_last(), now, cooldown) {
            Some(a) => Some(a),
            None => if cooling(fired, alternatives.last().key, now, cooldown) {
                None
            } else {
                Some(alternatives.last())
            },
        }
    }
}

/// What becomes of a list of proposals: in their order, the first open alternative of each fires,
/// and its key starts to cool down.
pub open spec fn admitted(
    fired: Fired,
    proposals: Seq<Seq<AlertView>>,
    now: Instant,
    cooldown: int,
) -> (Fired, Seq<AlertView>)
    decreases proposals.len(),
{
    if proposals.len() == 0 {
        (fired, Seq::empty())
    } else {
        let (so_far, alerts) = admitted(fired, proposals.drop_last(), now, cooldown);
        match first_open(so_far, proposals.last(), now, cooldown) {
            Some(a) => (so_far.insert(a.key, now), alerts.push(a)),
            None => (so_far, alerts),
        }
    }
}

/// How many alerts were held back, by class of user.
#[derive(Clone, Copy, Debug)]
pub struct ClassCounts {
    pub root: u64,
    pub human: u64,
    pub service: u64,
    pub unknown: u64,
}

impl ClassCounts {
    /// The count of one class.
    pub open spec fn of(self, class: UserClass) -> u64 {
        match class {
            UserClass::Root => self.root,
            UserClass::Human => self.human,
            UserClass::Service => self.service,
            UserClass::Unknown => self.unknown,
        }
    }
}

/// How many alerts each detector held back.
pub type Suppressed = Map<Seq<char>, ClassCounts>;

/// How many alerts of one detector were held back because of one class of users.
pub open spec fn suppressed_of(counts: Suppressed, detector: Seq<char>, class: UserClass) -> nat {
    if counts.contains_key(detector) {
        counts[detector].of(class) as nat
    } else {
        0
    }
}

/// What the detectors of a graph remember between two runs.
pub struct GraphDetectorState {
    last_fired: StringHashMap<Timestamp>,
    suppressed_counts: StringHashMap<ClassCounts>,
}

impl GraphDetectorState {
    /// When each key fired last.
    pub closed spec fn fired(self) -> Fired {
        self.last_fired@.map_values(|t: Timestamp| t@)
    }

    /// How many alerts each detector held back.
    pub closed spec fn suppressed(self) -> Suppressed {
        self.suppressed_counts@
    }

    /// A state in which nothing has fired and nothing was held back.
    pub fn new() -> (state: GraphDetectorState)
        ensures
            state.fired() == Map::<Seq<char>, Instant>::empty(),
            state.suppressed() == Map::<Seq<char>, ClassCounts>::empty(),
    {
        let state = GraphDetectorState {
            last_fired: StringHashMap::new(),
            suppressed_counts: StringHashMap::new(),
        };
        assert(state.fired() =~= Map::<Seq<char>, Instant>::empty());
        state
    }

    /// Lets a key fire unless it is cooling down, and starts its cooldown where it does.
    pub fn check_and_set(&mut self, key: &str, now: &Timestamp, cooldown: i64) -> (fires: bool)
        ensures
            fires == !cooling(old(self).fired(), key@, now@, cooldown as int),
            final(self).fired() == if fires {
                old(self).fired().insert(key@, now@)
            } else {
                old(self).fired()
            },
            final(self).suppressed() == old(self).suppressed(),
    {
        let fires = match self.last_fired.get(key) {
            Some(last) => !now.is_within(last, cooldown),
            None => true,
        };
        if fires {
            self.last_fired.insert(key.to_owned(), *now);
            assert(self.fired() =~= old(self).fired().insert(key@, now@));
        }
        fires
    }

    /// Counts one alert of `detector` that was held back because of the class of the user.
    pub fn count_suppressed(&mut self, detector: &str, class: UserClass)
        requires
            suppressed_of(old(self).suppressed(), detector@, class) < u64::MAX,
        ensures
            suppressed_of(final(self).suppressed(), detector@, class) == suppressed_of(
                old(self).suppressed(),
                detector@,
                class,
            ) + 1,
            forall|d: Seq<char>, c: UserClass|
                d != detector@ || c != class ==> #[trigger] suppressed_of(
                    final(self).suppressed(),
                    d,
                    c,
                ) == suppressed_of(old(self).suppressed(), d, c),
            final(self).fired() == old(self).fired(),
    {
        let mut counts = match self.suppressed_counts.get(detector) {
            Some(counts) => *counts,
            None => ClassCounts { root: 0, human: 0, service: 0, unknown: 0 },
        };
        match class {
            UserClass::Root => {
                counts.root = counts.root + 1;
            },
            UserClass::Human => {
                counts.human = counts.human + 1;
            },
            UserClass::Service => {
                counts.service = counts.service + 1;
            },
            UserClass::Unknown => {
                counts.unknown = counts.unknown + 1;
            },
        }
        self.suppressed_counts.insert(detector.to_owned(), counts);
    }

    /// How many alerts of `detector` were held back because of one class of users.
    pub fn suppressed_count(&self, detector: &str, class: UserClass) -> (count: u64)
        ensures
            count == suppressed_of(self.suppressed(), detector@, class),
    {
        match self.suppressed_counts.get(detector) {
            Some(counts) => match class {
                UserClass::Root => counts.root,
                UserClass::Human => counts.human,
                UserClass::Service => counts.service,
                UserClass::Unknown => counts.unknown,
            },
            None => 0,
        }
    }

    /// Lets the proposals of a detector fire, each by the first of its alternatives whose key is
    /// not cooling down.
    pub fn raise(
        &mut self,
        proposals: Vec<Vec<Alert>>,
        now: &Timestamp,
        cooldown: i64,
    ) -> (incidents: Vec<Incident>)
        ensures
            (final(self).fired(), incident_views(incidents@)) == ({
                let (fired, alerts) = admitted(
                    old(self).fired(),
                    proposal_views(proposals@),
                    now@,
                    cooldown as int,
                );
                (fired, incidents_of(alerts))
            }),
            final(self).suppressed() == old(self).suppressed(),
    {
        let mut incidents: Vec<Incident> = Vec::new();
        let ghost all = proposal_views(proposals@);
        let ghost start = self.fired();
        assert(incident_views(incidents@) =~= incidents_of(Seq::<AlertView>::empty()));
        for proposal in it: proposals
            invariant
                it.seq() == proposals@,
                all == proposal_views(proposals@),
                start == old(self).fired(),
                self.suppressed() == old(self).suppressed(),
                ({
                    let (fired, alerts) = admitted(
                        start,
                        all.take(it.index() as int),
                        now@,
                        cooldown as int,
                    );
                    &&& self.fired() == fired
                    &&& incident_views(incidents@) == incidents_of(alerts)
                }),
        {
            let ghost at = it.index() as int;
            let ghost before = admitted(start, all.take(at), now@, cooldown as int);
            let ghost alternatives = alert_views(proposal@);
            proof {
                assert(all.take(at + 1).drop_last() =~= all.take(at));
                assert(all.take(at + 1).last() == alternatives);
            }
            let ghost listed = incidents@;
            let mut done = false;
            for alert in alerts: proposal
                invariant
                    alerts.seq() == proposal@,
                    alternatives == alert_views(proposal@),
                    self.suppressed() == old(self).suppressed(),
                    match first_open(
                        before.0,
                        alternatives.take(alerts.index() as int),
                        now@,
                        cooldown as int,
                    ) {
                        Some(a) => {
                            &&& done
                            &&& self.fired() == before.0.insert(a.key, now@)
                            &&& incident_views(incidents@) == incident_views(listed).push(
                                a.incident,
                            )
                        },
                        None => {
                            &&& !done
                            &&& self.fired() == before.0
                            &&& incidents@ == listed
                        },
                    },
            {
                let ghost k = alerts.index() as int;
                proof {
                    assert(alternatives.take(k + 1).drop_last() =~= alternatives.take(k));
                    assert(alternatives.take(k + 1).last() == alert@);
                }
                if !done && self.check_and_set(&alert.key, now, cooldown) {
                    incidents.push(alert.incident);
                    assert(incident_views(incidents@) =~= incident_views(listed).push(
                        alert@.incident,
                    ));
                    done = true;
                }
            }
            proof {
                assert(alternatives.take(alternatives.len() as int) =~= alternatives);
                let after = admitted(start, all.take(at + 1), now@, cooldown as int);
                assert(incident_views(incidents@) =~= incidents_of(after.1));
            }
        }
        assert(all.take(all.len() as int) =~= all);
        incidents
    }
}

/// The key of every alternative of every proposal is the same as that of the others.
pub open spec fn one_key_each(proposals: Seq<Seq<AlertView>>) -> bool {
    forall|p: int, i: int, j: int|
        #![trigger proposals[p][i], proposals[p][j]]
        0 <= p < proposals.len() && 0 <= i < proposals[p].len() && 0 <= j < proposals[p].len()
            ==> proposals[p][i].key == proposals[p][j].key
}

/// What [`first_open`] chooses is an alternative whose key is not cooling down; it chooses nothing
/// only where all keys are.
pub proof fn first_open_is_open(
    fired: Fired,
    alternatives: Seq<AlertView>,
    now: Instant,
    cooldown: int,
)
    ensures
        match first_open(fired, alternatives, now, cooldown) {
            Some(a) => alternatives.contains(a) && !cooling(fired, a.key, now, cooldown),
            None => forall|i: int|
                0 <= i < alternatives.len() ==> cooling(
                    fired,
                    (#[trigger] alternatives[i]).key,
                    now,
                    cooldown,
                ),
        },
    decreases alternatives.len(),
{
    if alternatives.len() > 0 {
        let front = alternatives.drop_last();
        first_open_is_open(fired, front, now, cooldown);
        match first_open(fired, front, now, cooldown) {
            Some(a) => {
                let i = choose|i: int| 0 <= i < front.len() && front[i] == a;
                assert(alternatives[i] == a);
            },
            None => {
                assert forall|i: int|
                    0 <= i < alternatives.len() - 1 implies cooling(
                    fired,
                    (#[trigger] alternatives[i]).key,
                    now,
                    cooldown,
                ) by {
                    assert(front[i] == alternatives[i]);
                }
                assert(alternatives[alternatives.len() - 1] == alternatives.last());
            },
        }
    }
}

/// A key that cools down before a run of a detector stays as it is during the run, and nothing
/// fires under it.
pub proof fn held_back_keys_stay_silent(
    fired: Fired,
    proposals: Seq<Seq<AlertView>>,
    now: Instant,
    cooldown: int,
    key: Seq<char>,
)
    requires
        cooling(fired, key, now, cooldown),
    ensures
        admitted(fired, proposals, now, cooldown).0.contains_key(key),
        admitted(fired, proposals, now, cooldown).0[key] == fired[key],
        !keys_of(admitted(fired, proposals, now, cooldown).1).contains(key),
    decreases proposals.len(),
{
    if proposals.len() > 0 {
        let front = proposals.drop_last();
        held_back_keys_stay_silent(fired, front, now, cooldown, key);
        let (so_far, alerts) = admitted(fired, front, now, cooldown);
        first_open_is_open(so_far, proposals.last(), now, cooldown);
        match first_open(so_far, proposals.last(), now, cooldown) {
            Some(a) => {
                assert(keys_of(alerts.push(a)) =~= keys_of(alerts).push(a.key));
            },
            None => {},
        }
    }
}

/// After a run, the key of every alert that fired in it is recorded with the moment of the run.
pub proof fn fired_keys_are_recorded(
    fired: Fired,
    proposals: Seq<Seq<AlertView>>,
    now: Instant,
    cooldown: int,
)
    ensures
        ({
            let (after, alerts) = admitted(fired, proposals, now, cooldown);
            forall|i: int|
                0 <= i < alerts.len() ==> after.contains_key((#[trigger] alerts[i]).key)
                    && after[alerts[i].key] == now
        }),
    decreases proposals.len(),
{
    if proposals.len() > 0 {
        fired_keys_are_recorded(fired, proposals.drop_last(), now, cooldown);
    }
}

/// In one run of a detector no key fires twice.
pub proof fn no_key_fires_twice(
    fired: Fired,
    proposals: Seq<Seq<AlertView>>,
    now: Instant,
    cooldown: int,
)
    requires
        cooldown > 0,
    ensures
        keys_of(admitted(fired, proposals, now, cooldown).1).no_duplicates(),
    decreases proposals.len(),
{
    if proposals.len() > 0 {
        let front = proposals.drop_last();
        no_key_fires_twice(fired, front, now, cooldown);
        fired_keys_are_recorded(fired, front, now, cooldown);
        no_time_passes_at_once(now);
        let (so_far, alerts) = admitted(fired, front, now, cooldown);
        first_open_is_open(so_far, proposals.last(), now, cooldown);
        match first_open(so_far, proposals.last(), now, cooldown) {
            Some(a) => {
                assert(keys_of(alerts.push(a)) =~= keys_of(alerts).push(a.key));
                assert forall|i: int| 0 <= i < alerts.len() implies #[trigger] keys_of(alerts)[i]
                    != a.key by {
                    assert(cooling(so_far, alerts[i].key, now, cooldown));
                }
            },
            None => {},
        }
    }
}

/// Every alert that fires is an alternative of some proposal, and its key was not cooling down when
/// the run began.
pub proof fn only_proposals_fire(
    fired: Fired,
    proposals: Seq<Seq<AlertView>>,
    now: Instant,
    cooldown: int,
)
    ensures
        ({
            let alerts = admitted(fired, proposals, now, cooldown).1;
            forall|i: int|
                #![trigger alerts[i]]
                0 <= i < alerts.len() ==> {
                    &&& exists|p: int|
                        0 <= p < proposals.len() && (#[trigger] proposals[p]).contains(alerts[i])
                    &&& !cooling(fired, alerts[i].key, now, cooldown)
                }
        }),
    decreases proposals.len(),
{
    let alerts = admitted(fired, proposals, now, cooldown).1;
    assert forall|i: int| 0 <= i < alerts.len() implies !cooling(
        fired,
        (#[trigger] alerts[i]).key,
        now,
        cooldown,
    ) by {
        if cooling(fired, alerts[i].key, now, cooldown) {
            held_back_keys_stay_silent(fired, proposals, now, cooldown, alerts[i].key);
            assert(keys_of(alerts)[i] == alerts[i].key);
        }
    }
    if proposals.len() > 0 {
        let front = proposals.drop_last();
        only_proposals_fire(fired, front, now, cooldown);
        let (so_far, before) = admitted(fired, front, now, cooldown);
        first_open_is_open(so_far, proposals.last(), now, cooldown);
        assert forall|i: int| 0 <= i < alerts.len() implies exists|p: int|
            0 <= p < proposals.len() && (#[trigger] proposals[p]).contains(
                #[trigger] alerts[i],
            ) by {
            if i < before.len() {
                assert(alerts[i] == before[i]);
                let p = choose|p: int|
                    0 <= p < front.len() && (#[trigger] front[p]).contains(before[i]);
                assert(proposals[p] == front[p]);
            } else {
                assert(proposals[proposals.len() - 1].contains(alerts[i]));
            }
        }
    }
}

/// A key that cools down after a run was either cooling down before it or fired in it.
proof fn new_cooldowns_have_fired(
    fired: Fired,
    proposals: Seq<Seq<AlertView>>,
    now: Instant,
    cooldown: int,
    key: Seq<char>,
)
    requires
        cooling(admitted(fired, proposals, now, cooldown).0, key, now, cooldown),
    ensures
        cooling(fired, key, now, cooldown) || keys_of(
            admitted(fired, proposals, now, cooldown).1,
        ).contains(key),
    decreases proposals.len(),
{
    if proposals.len() > 0 {
        let front = proposals.drop_last();
        let (so_far, alerts) = admitted(fired, front, now, cooldown);
        match first_open(so_far, proposals.last(), now, cooldown) {
            Some(a) => {
                assert(keys_of(alerts.push(a)) =~= keys_of(alerts).push(a.key));
                assert(keys_of(alerts.push(a))[alerts.len() as int] == a.key);
                if key != a.key {
                    new_cooldowns_have_fired(fired, front, now, cooldown, key);
                    if keys_of(alerts).contains(key) {
                        let i = choose|i: int|
                            0 <= i < keys_of(alerts).len() && keys_of(alerts)[i] == key;
                        assert(keys_of(alerts.push(a))[i] == key);
                    }
                }
            },
            None => {
                new_cooldowns_have_fired(fired, front, now, cooldown, key);
            },
        }
    }
}

/// No detection is lost: where the key of some alternative of a proposal was not cooling down when
/// the run began, an alert fires in the run under the key of some alternative of that proposal.
pub proof fn no_detection_is_lost(
    fired: Fired,
    proposals: Seq<Seq<AlertView>>,
    now: Instant,
    cooldown: int,
    p: int,
    i: int,
)
    requires
        0 <= p < proposals.len(),
        0 <= i < proposals[p].len(),
        !cooling(fired, proposals[p][i].key, now, cooldown),
    ensures
        exists|j: int|
            0 <= j < proposals[p].len() && keys_of(
                admitted(fired, proposals, now, cooldown).1,
            ).contains((#[trigger] proposals[p][j]).key),
    decreases proposals.len(),
{
    let front = proposals.drop_last();
    let last = proposals.last();
    let (so_far, before) = admitted(fired, front, now, cooldown);
    let alerts = admitted(fired, proposals, now, cooldown).1;
    assert forall|key: Seq<char>| keys_of(before).contains(key) implies keys_of(alerts).contains(
        key,
    ) by {
        let k = choose|k: int| 0 <= k < before.len() && keys_of(before)[k] == key;
        assert(keys_of(alerts)[k] == key);
    }
    if p < front.len() {
        assert(front[p] == proposals[p]);
        no_detection_is_lost(fired, front, now, cooldown, p, i);
        let j = choose|j: int|
            0 <= j < front[p].len() && keys_of(before).contains((#[trigger] front[p][j]).key);
        assert(keys_of(alerts).contains(proposals[p][j].key));
    } else {
        first_open_is_open(so_far, last, now, cooldown);
        match first_open(so_far, last, now, cooldown) {
            Some(a) => {
                let j = choose|j: int| 0 <= j < last.len() && last[j] == a;
                assert(keys_of(alerts)[before.len() as int] == proposals[p][j].key);
            },
            None => {
                assert(cooling(so_far, last[i].key, now, cooldown));
                new_cooldowns_have_fired(fired, front, now, cooldown, last[i].key);
                assert(keys_of(alerts).contains(proposals[p][i].key));
            },
        }
    }
}

/// Where all keys of all proposals cool down, nothing fires and nothing changes.
proof fn all_cooling_is_silent(
    fired: Fired,
    proposals: Seq<Seq<AlertView>>,
    now: Instant,
    cooldown: int,
)
    requires
        forall|p: int, i: int|
            #![trigger proposals[p][i]]
            0 <= p < proposals.len() && 0 <= i < proposals[p].len() ==> cooling(
                fired,
                proposals[p][i].key,
                now,
                cooldown,
            ),
    ensures
        admitted(fired, proposals, now, cooldown) == (fired, Seq::<AlertView>::empty()),
    decreases proposals.len(),
{
    if proposals.len() > 0 {
        let front = proposals.drop_last();
        assert forall|p: int, i: int|
            #![trigger front[p][i]]
            0 <= p < front.len() && 0 <= i < front[p].len() implies cooling(
            fired,
            front[p][i].key,
            now,
            cooldown,
        ) by {
            assert(cooling(fired, proposals[p][i].key, now, cooldown));
        }
        all_cooling_is_silent(fired, front, now, cooldown);
        first_open_is_open(fired, proposals.last(), now, cooldown);
        match first_open(fired, proposals.last(), now, cooldown) {
            Some(a) => {
                let i = choose|i: int|
                    0 <= i < proposals.last().len() && proposals.last()[i] == a;
                assert(cooling(fired, proposals[proposals.len() - 1][i].key, now, cooldown));
            },
            None => {},
        }
    }
}

/// Some proposal has an alternative with the key `key`.
pub open spec fn proposes(proposals: Seq<Seq<AlertView>>, key: Seq<char>) -> bool {
    exists|p: int, i: int|
        0 <= p < proposals.len() && 0 <= i < proposals[p].len() && (
        #[trigger] proposals[p][i]).key == key
}

/// Every key of `second` is a key of `first`.
pub open spec fn keys_among(second: Seq<Seq<AlertView>>, first: Seq<Seq<AlertView>>) -> bool {
    forall|key: Seq<char>| #[trigger] proposes(second, key) ==> proposes(first, key)
}

/// No cooldown of a proposed key that runs at `now` is over at `later`.
pub open spec fn cooldowns_last(
    fired: Fired,
    proposals: Seq<Seq<AlertView>>,
    now: Instant,
    later: Instant,
    cooldown: int,
) -> bool {
    forall|key: Seq<char>| #[trigger]
        proposes(proposals, key) && cooling(fired, key, now, cooldown) ==> cooling(
            fired,
            key,
            later,
            cooldown,
        )
}

/// A second run within the cooldown of the first reports nothing and changes nothing, where every
/// proposal of the first run has one key, the second run proposes no other keys, and no cooldown
/// that ran before the first run ends in between. (A key whose cooldown ends in between was held
/// back in the first run, and fires in the second.)
pub proof fn repetition_is_silent(
    fired: Fired,
    first: Seq<Seq<AlertView>>,
    second: Seq<Seq<AlertView>>,
    now: Instant,
    later: Instant,
    cooldown: int,
)
    requires
        one_key_each(first),
        keys_among(second, first),
        cooldowns_last(fired, second, now, later, cooldown),
        in_window(now, later, cooldown),
    ensures
        ({
            let after = admitted(fired, first, now, cooldown).0;
            admitted(after, second, later, cooldown) == (after, Seq::<AlertView>::empty())
        }),
{
    let (after, alerts) = admitted(fired, first, now, cooldown);
    fired_keys_are_recorded(fired, first, now, cooldown);
    assert forall|p: int, i: int|
        #![trigger second[p][i]]
        0 <= p < second.len() && 0 <= i < second[p].len() implies cooling(
        after,
        second[p][i].key,
        later,
        cooldown,
    ) by {
        let key = second[p][i].key;
        assert(proposes(second, key));
        if cooling(fired, key, now, cooldown) {
            held_back_keys_stay_silent(fired, first, now, cooldown, key);
        } else {
            assert(proposes(first, key));
            let (q, j) = choose|q: int, j: int|
                0 <= q < first.len() && 0 <= j < first[q].len() && (
                #[trigger] first[q][j]).key == key;
            no_detection_is_lost(fired, first, now, cooldown, q, j);
            let m = choose|m: int|
                0 <= m < first[q].len() && keys_of(alerts).contains((#[trigger] first[q][m]).key);
            assert(first[q][m].key == first[q][j].key);
            let k = choose|k: int| 0 <= k < keys_of(alerts).len() && keys_of(alerts)[k] == key;
            assert(alerts[k].key == key);
        }
    }
    all_cooling_is_silent(after, second, later, cooldown);
}

/// No alert of `second` has the key of an alert of `first`.
pub open spec fn no_key_again(first: Seq<AlertView>, second: Seq<AlertView>) -> bool {
    forall|i: int, j: int|
        0 <= i < first.len() && 0 <= j < second.len() ==> (#[trigger] first[i]).key != (
        #[trigger] second[j]).key
}

/// A key that fired in one run does not fire in a run within its cooldown, whatever is proposed
/// there.
pub proof fn no_key_fires_again_within_its_cooldown(
    fired: Fired,
    first: Seq<Seq<AlertView>>,
    second: Seq<Seq<AlertView>>,
    now: Instant,
    later: Instant,
    cooldown: int,
)
    requires
        in_window(now, later, cooldown),
    ensures
        ({
            let (after, alerts) = admitted(fired, first, now, cooldown);
            no_key_again(alerts, admitted(after, second, later, cooldown).1)
        }),
{
    let (after, alerts) = admitted(fired, first, now, cooldown);
    let again = admitted(after, second, later, cooldown).1;
    fired_keys_are_recorded(fired, first, now, cooldown);
    assert forall|i: int, j: int| 0 <= i < alerts.len() && 0 <= j < again.len() implies (
    #[trigger] alerts[i]).key != (#[trigger] again[j]).key by {
        held_back_keys_stay_silent(after, second, later, cooldown, alerts[i].key);
        assert(keys_of(again)[j] == again[j].key);
    }
}

/// Proposals made item by item have keys among those of others made item by item where those of
/// each item do and the items are among the others'.
pub(crate) proof fn flat_keys_among<A>(
    second_items: Seq<A>,
    second: spec_fn(A) -> Seq<Seq<AlertView>>,
    first_items: Seq<A>,
    first: spec_fn(A) -> Seq<Seq<AlertView>>,
)
    requires
        forall|n: int|
            0 <= n < second_items.len() ==> first_items.contains(#[trigger] second_items[n]),
        forall|x: A| keys_among(#[trigger] second(x), first(x)),
    ensures
        keys_among(second_items.flat_map(second), first_items.flat_map(first)),
{
    let late = second_items.flat_map(second);
    let early = first_items.flat_map(first);
    assert forall|key: Seq<char>| #[trigger] proposes(late, key) implies proposes(early, key) by {
        let (p, i) = choose|p: int, i: int|
            0 <= p < late.len() && 0 <= i < late[p].len() && (#[trigger] late[p][i]).key == key;
        let n = flat_map_origin(second_items, second, p);
        let x = second_items[n];
        let here = second(x);
        let before = first(x);
        let k = choose|k: int| 0 <= k < here.len() && here[k] == late[p];
        assert(here[k][i].key == key);
        assert(keys_among(second(x), first(x)));
        assert(proposes(here, key));
        let (q, j) = choose|q: int, j: int|
            0 <= q < before.len() && 0 <= j < before[q].len() && (
            #[trigger] before[q][j]).key == key;
        flat_map_holds(first_items, first, x, before[q]);
        let m = choose|m: int| 0 <= m < early.len() && early[m] == before[q];
        assert(early[m][j].key == key);
    }
}

/// A single alert has its key among those of another with the same key; no alert has it among any.
pub(crate) proof fn single_keys_among(second: Seq<Seq<AlertView>>, first: Seq<Seq<AlertView>>)
    requires
        second.len() > 0 ==> {
            &&& second.len() == 1
            &&& second[0].len() == 1
            &&& first.len() > 0
            &&& first[0].len() > 0
            &&& second[0][0].key == first[0][0].key
        },
    ensures
        keys_among(second, first),
{
    assert forall|key: Seq<char>| #[trigger] proposes(second, key) implies proposes(first, key) by {
        assert(first[0][0].key == key);
    }
}

/// A key that fires is held back exactly until its cooldown is over.
pub proof fn a_key_fires_again_after_its_cooldown(
    fired: Fired,
    key: Seq<char>,
    at: Instant,
    later: Instant,
    cooldown: int,
)
    ensures
        cooling(fired.insert(key, at), key, later, cooldown) <==> later.since(at) < cooldown
            * 1_000_000_000,
{
}

/// Every proposal has a single alternative.
pub open spec fn single_alternatives(proposals: Seq<Seq<AlertView>>) -> bool {
    forall|p: int| 0 <= p < proposals.len() ==> (#[trigger] proposals[p]).len() == 1
}

/// Proposals that a rule makes of each item of a list have single alternatives where those of each
/// item do.
pub(crate) proof fn flat_singles<A>(items: Seq<A>, rule: spec_fn(A) -> Seq<Seq<AlertView>>)
    requires
        forall|x: A| single_alternatives(#[trigger] rule(x)),
    ensures
        single_alternatives(items.flat_map(rule)),
    decreases items.len(),
{
    if items.len() > 0 {
        let front = items.drop_last();
        flat_singles(front, rule);
        front.lemma_flat_map_push(rule, items.last());
        assert(front.push(items.last()) =~= items);
        let a = front.flat_map(rule);
        let b = rule(items.last());
        assert(single_alternatives(b));
        assert forall|p: int| 0 <= p < (a + b).len() implies (#[trigger] (a + b)[p]).len() == 1 by {
            if p < a.len() {
                assert((a + b)[p] == a[p]);
            } else {
                assert((a + b)[p] == b[p - a.len()]);
            }
        }
    }
}

/// Single alternatives have one key each.
pub(crate) proof fn singles_have_one_key(proposals: Seq<Seq<AlertView>>)
    requires
        single_alternatives(proposals),
    ensures
        one_key_each(proposals),
{
    assert forall|p: int, i: int, j: int|
        #![trigger proposals[p][i], proposals[p][j]]
        0 <= p < proposals.len() && 0 <= i < proposals[p].len() && 0 <= j
            < proposals[p].len() implies proposals[p][i].key == proposals[p][j].key by {
        assert(proposals[p].len() == 1);
    }
}

/// A run reports no more alerts than there are proposals.
pub proof fn no_more_alerts_than_proposals(
    fired: Fired,
    proposals: Seq<Seq<AlertView>>,
    now: Instant,
    cooldown: int,
)
    ensures
        admitted(fired, proposals, now, cooldown).1.len() <= proposals.len(),
    decreases proposals.len(),
{
    if proposals.len() > 0 {
        no_more_alerts_than_proposals(fired, proposals.drop_last(), now, cooldown);
    }
}

/// Proposals that a rule makes of each item of a list have one key each where those of each item
/// do.
pub(crate) proof fn flat_one_key<A>(items: Seq<A>, rule: spec_fn(A) -> Seq<Seq<AlertView>>)
    requires
        forall|x: A| one_key_each(#[trigger] rule(x)),
    ensures
        one_key_each(items.flat_map(rule)),
    decreases items.len(),
{
    if items.len() > 0 {
        let front = items.drop_last();
        flat_one_key(front, rule);
        front.lemma_flat_map_push(rule, items.last());
        assert(front.push(items.last()) =~= items);
        let a = front.flat_map(rule);
        let b = rule(items.last());
        assert(one_key_each(b));
        let all = items.flat_map(rule);
        assert forall|p: int, i: int, j: int|
            #![trigger all[p][i], all[p][j]]
            0 <= p < all.len() && 0 <= i < all[p].len() && 0 <= j < all[p].len() implies all[p][i].key
            == all[p][j].key by {
            if p < a.len() {
                assert(a[p][i].key == a[p][j].key);
            } else {
                assert(b[p - a.len()][i].key == b[p - a.len()][j].key);
            }
        }
    }
}

/// What a rule makes of one item of a list is part of what it makes of the list.
pub(crate) proof fn flat_map_holds<A, B>(items: Seq<A>, rule: spec_fn(A) -> Seq<B>, item: A, part: B)
    requires
        items.contains(item),
        rule(item).contains(part),
    ensures
        items.flat_map(rule).contains(part),
    decreases items.len(),
{
    let front = items.drop_last();
    front.lemma_flat_map_push(rule, items.last());
    assert(front.push(items.last()) =~= items);
    let a = front.flat_map(rule);
    let b = rule(items.last());
    if item == items.last() {
        let k = choose|k: int| 0 <= k < b.len() && b[k] == part;
        assert((a + b)[a.len() + k] == part);
    } else {
        let n = choose|n: int| 0 <= n < items.len() && items[n] == item;
        assert(front[n] == item);
        flat_map_holds(front, rule, item, part);
        let k = choose|k: int| 0 <= k < a.len() && a[k] == part;
        assert((a + b)[k] == part);
    }
}

/// Every part of what a rule makes of a list is part of what it makes of some item.
pub(crate) proof fn flat_map_origin<A, B>(items: Seq<A>, rule: spec_fn(A) -> Seq<B>, k: int) -> (n:
    int)
    requires
        0 <= k < items.flat_map(rule).len(),
    ensures
        0 <= n < items.len(),
        rule(items[n]).contains(items.flat_map(rule)[k]),
    decreases items.len(),
{
    if items.len() == 0 {
        assert(items.flat_map(rule) =~= Seq::empty());
        0
    } else {
        let front = items.drop_last();
        front.lemma_flat_map_push(rule, items.last());
        assert(front.push(items.last()) =~= items);
        let a = front.flat_map(rule);
        let b = rule(items.last());
        if k < a.len() {
            flat_map_origin(front, rule, k)
        } else {
            assert(b[k - a.len()] == items.flat_map(rule)[k]);
            items.len() - 1
        }
    }
}

/// An alert that a rule proposes of some item of a list as the only alternative fires, or another
/// fires under its key, unless that key was cooling down when the run began.
pub(crate) proof fn proposed_alerts_fire<A>(
    fired: Fired,
    items: Seq<A>,
    rule: spec_fn(A) -> Seq<Seq<AlertView>>,
    item: A,
    alert: AlertView,
    now: Instant,
    cooldown: int,
)
    requires
        items.contains(item),
        rule(item).contains(seq![alert]),
        !cooling(fired, alert.key, now, cooldown),
    ensures
        keys_of(admitted(fired, items.flat_map(rule), now, cooldown).1).contains(alert.key),
{
    let proposals = items.flat_map(rule);
    flat_map_holds(items, rule, item, seq![alert]);
    let p = choose|p: int| 0 <= p < proposals.len() && proposals[p] == seq![alert];
    assert(proposals[p][0] == alert);
    no_detection_is_lost(fired, proposals, now, cooldown, p, 0);
}

/// [`first_open`] chooses the first alternative whose key is not cooling down: all before it are.
pub proof fn earlier_alternatives_are_cooling(
    fired: Fired,
    alternatives: Seq<AlertView>,
    now: Instant,
    cooldown: int,
) -> (m: int)
    requires
        first_open(fired, alternatives, now, cooldown) is Some,
    ensures
        0 <= m < alternatives.len(),
        first_open(fired, alternatives, now, cooldown) == Some(alternatives[m]),
        forall|k: int|
            0 <= k < m ==> cooling(fired, (#[trigger] alternatives[k]).key, now, cooldown),
    decreases alternatives.len(),
{
    let front = alternatives.drop_last();
    if first_open(fired, front, now, cooldown) is Some {
        let m = earlier_alternatives_are_cooling(fired, front, now, cooldown);
        assert forall|k: int| 0 <= k < m implies cooling(
            fired,
            (#[trigger] alternatives[k]).key,
            now,
            cooldown,
        ) by {
            assert(front[k] == alternatives[k]);
        }
        m
    } else {
        first_open_is_open(fired, front, now, cooldown);
        assert forall|k: int| 0 <= k < front.len() implies cooling(
            fired,
            (#[trigger] alternatives[k]).key,
            now,
            cooldown,
        ) by {
            assert(front[k] == alternatives[k]);
        }
        alternatives.len() - 1
    }
}

/// Every alert that fires is an alternative of a proposal, and was free to fire when the run began.
/// The alternatives before it were not: after the run their keys are cooling down.
pub proof fn an_alert_is_the_first_that_may_fire(
    fired: Fired,
    proposals: Seq<Seq<AlertView>>,
    now: Instant,
    cooldown: int,
    i: int,
) -> (at: (int, int))
    requires
        0 <= i < admitted(fired, proposals, now, cooldown).1.len(),
    ensures
        0 <= at.0 < proposals.len(),
        0 <= at.1 < proposals[at.0].len(),
        admitted(fired, proposals, now, cooldown).1[i] == proposals[at.0][at.1],
        !cooling(fired, proposals[at.0][at.1].key, now, cooldown),
        forall|k: int|
            0 <= k < at.1 ==> cooling(
                admitted(fired, proposals, now, cooldown).0,
                (#[trigger] proposals[at.0][k]).key,
                now,
                cooldown,
            ),
    decreases proposals.len(),
{
    let front = proposals.drop_last();
    let last = proposals.last();
    let (so_far, before) = admitted(fired, front, now, cooldown);
    let (after, alerts) = admitted(fired, proposals, now, cooldown);
    only_proposals_fire(fired, proposals, now, cooldown);
    first_open_is_open(so_far, last, now, cooldown);
    if i < before.len() {
        let at = an_alert_is_the_first_that_may_fire(fired, front, now, cooldown, i);
        assert(front[at.0] == proposals[at.0]);
        assert(alerts[i] == before[i]);
        assert forall|k: int| 0 <= k < at.1 implies cooling(
            after,
            (#[trigger] proposals[at.0][k]).key,
            now,
            cooldown,
        ) by {
            assert(cooling(so_far, front[at.0][k].key, now, cooldown));
        }
        at
    } else {
        let m = earlier_alternatives_are_cooling(so_far, last, now, cooldown);
        assert(alerts[i] == last[m]);
        assert forall|k: int| 0 <= k < m implies cooling(
            after,
            (#[trigger] last[k]).key,
            now,
            cooldown,
        ) by {
            assert(cooling(so_far, last[k].key, now, cooldown));
        }
        (proposals.len() - 1, m)
    }
}

/// A run records of exactly the keys that fired in it that they fired now; all others stay as they
/// were.
pub proof fn a_run_records_what_fired(
    fired: Fired,
    proposals: Seq<Seq<AlertView>>,
    now: Instant,
    cooldown: int,
    key: Seq<char>,
)
    ensures
        ({
            let (after, alerts) = admitted(fired, proposals, now, cooldown);
            if exists|i: int| 0 <= i < alerts.len() && (#[trigger] alerts[i]).key == key {
                after.contains_key(key) && after[key] == now
            } else {
                after.contains_key(key) == fired.contains_key(key) && (fired.contains_key(key)
                    ==> after[key] == fired[key])
            }
        }),
    decreases proposals.len(),
{
    fired_keys_are_recorded(fired, proposals, now, cooldown);
    let alerts = admitted(fired, proposals, now, cooldown).1;
    if !exists|i: int| 0 <= i < alerts.len() && (#[trigger] alerts[i]).key == key {
        if proposals.len() > 0 {
            let front = proposals.drop_last();
            let before = admitted(fired, front, now, cooldown).1;
            assert forall|i: int| 0 <= i < before.len() implies (#[trigger] before[i]).key
                != key by {
                assert(alerts[i] == before[i]);
            }
            a_run_records_what_fired(fired, front, now, cooldown, key);
            if before.len() < alerts.len() {
                assert(alerts[before.len() as int].key != key);
            }
        }
    }
}

/// `from` tells of each alert the proposal that it belongs to, and ascends.
pub open spec fn in_order(
    proposals: Seq<Seq<AlertView>>,
    alerts: Seq<AlertView>,
    from: Seq<int>,
) -> bool {
    &&& from.len() == alerts.len()
    &&& forall|i: int|
        #![trigger from[i]]
        0 <= i < from.len() ==> 0 <= from[i] < proposals.len() && proposals[from[i]].contains(
            alerts[i],
        )
    &&& forall|i: int, j: int| 0 <= i < j < from.len() ==> from[i] < from[j]
}

/// Alerts fire in the order in which they are proposed.
pub proof fn alerts_fire_in_order(
    fired: Fired,
    proposals: Seq<Seq<AlertView>>,
    now: Instant,
    cooldown: int,
) -> (from: Seq<int>)
    ensures
        in_order(proposals, admitted(fired, proposals, now, cooldown).1, from),
    decreases proposals.len(),
{
    if proposals.len() == 0 {
        Seq::empty()
    } else {
        let front = proposals.drop_last();
        let before = alerts_fire_in_order(fired, front, now, cooldown);
        let (so_far, alerts) = admitted(fired, front, now, cooldown);
        first_open_is_open(so_far, proposals.last(), now, cooldown);
        assert forall|i: int| #![trigger before[i]] 0 <= i < before.len() implies 0 <= before[i]
            < proposals.len() && proposals[before[i]].contains(alerts[i]) by {
            assert(front[before[i]] == proposals[before[i]]);
        }
        match first_open(so_far, proposals.last(), now, cooldown) {
            Some(a) => before.push(proposals.len() - 1),
            None => before,
        }
    }
}

/// Every alert that fires was proposed of some item, as an alternative of one of its proposals.
pub(crate) proof fn an_alert_has_an_item<A>(
    fired: Fired,
    items: Seq<A>,
    rule: spec_fn(A) -> Seq<Seq<AlertView>>,
    now: Instant,
    cooldown: int,
    i: int,
) -> (at: (int, int, int))
    requires
        0 <= i < admitted(fired, items.flat_map(rule), now, cooldown).1.len(),
    ensures
        0 <= at.0 < items.len(),
        0 <= at.1 < rule(items[at.0]).len(),
        0 <= at.2 < rule(items[at.0])[at.1].len(),
        admitted(fired, items.flat_map(rule), now, cooldown).1[i] == rule(items[at.0])[at.1][at.2],
        !cooling(fired, rule(items[at.0])[at.1][at.2].key, now, cooldown),
        forall|k: int|
            0 <= k < at.2 ==> cooling(
                admitted(fired, items.flat_map(rule), now, cooldown).0,
                (#[trigger] rule(items[at.0])[at.1][k]).key,
                now,
                cooldown,
            ),
{
    let proposals = items.flat_map(rule);
    let at = an_alert_is_the_first_that_may_fire(fired, proposals, now, cooldown, i);
    let n = flat_map_origin(items, rule, at.0);
    let here = rule(items[n]);
    let p = choose|p: int| 0 <= p < here.len() && here[p] == proposals[at.0];
    assert forall|k: int| 0 <= k < at.1 implies cooling(
        admitted(fired, proposals, now, cooldown).0,
        (#[trigger] rule(items[n])[p][k]).key,
        now,
        cooldown,
    ) by {
        assert(proposals[at.0][k] == here[p][k]);
    }
    (n, p, at.1)
}

/// What a rule makes of the first items of a list comes first, one item after the other.
pub(crate) proof fn flat_map_is_in_order<A, B>(
    items: Seq<A>,
    rule: spec_fn(A) -> Seq<B>,
    j: int,
    q: int,
)
    requires
        0 <= j < items.len(),
        0 <= q < rule(items[j]).len(),
    ensures
        items.take(j).flat_map(rule).len() + q < items.flat_map(rule).len(),
        items.flat_map(rule)[items.take(j).flat_map(rule).len() + q] == rule(items[j])[q],
        forall|k: int|
            #![trigger items.take(k)]
            j < k <= items.len() ==> items.take(j).flat_map(rule).len() + rule(items[j]).len()
                <= items.take(k).flat_map(rule).len(),
    decreases items.len(),
{
    let front = items.drop_last();
    front.lemma_flat_map_push(rule, items.last());
    assert(front.push(items.last()) =~= items);
    assert(items.take(items.len() as int) =~= items);
    assert(items.take(front.len() as int) =~= front);
    if j < front.len() {
        assert(front[j] == items[j]);
        flat_map_is_in_order(front, rule, j, q);
        assert(front.take(j) =~= items.take(j));
        assert forall|k: int|
            #![trigger items.take(k)]
            j < k <= items.len() implies items.take(j).flat_map(rule).len() + rule(
            items[j],
        ).len() <= items.take(k).flat_map(rule).len() by {
            if k <= front.len() {
                assert(front.take(k) =~= items.take(k));
            } else {
                assert(front.take(front.len() as int) =~= front);
            }
        }
    }
}

/// Every part of what a rule makes of a list has its place among the items.
pub(crate) proof fn flat_map_place<A, B>(items: Seq<A>, rule: spec_fn(A) -> Seq<B>, m: int) -> (k:
    int)
    requires
        0 <= m < items.flat_map(rule).len(),
    ensures
        0 <= k < items.len(),
        items.take(k).flat_map(rule).len() <= m < items.take(k).flat_map(rule).len() + rule(
            items[k],
        ).len(),
        items.flat_map(rule)[m] == rule(items[k])[m - items.take(k).flat_map(rule).len()],
    decreases items.len(),
{
    if items.len() == 0 {
        assert(items.flat_map(rule) =~= Seq::empty());
        0
    } else {
        let front = items.drop_last();
        front.lemma_flat_map_push(rule, items.last());
        assert(front.push(items.last()) =~= items);
        if m < front.flat_map(rule).len() {
            let k = flat_map_place(front, rule, m);
            assert(front.take(k) =~= items.take(k));
            k
        } else {
            assert(items.take(front.len() as int) =~= front);
            items.len() - 1
        }
    }
}

/// The incidents of a run are those of its alerts.
pub(crate) proof fn incidents_are_those_of_the_alerts(
    incidents: Seq<Incident>,
    alerts: Seq<AlertView>,
)
    requires
        incident_views(incidents) == incidents_of(alerts),
    ensures
        incidents.len() == alerts.len(),
        forall|i: int|
            0 <= i < incidents.len() ==> (#[trigger] incidents[i])@ == alerts[i].incident,
{
    assert(incident_views(incidents).len() == incidents.len());
    assert(incidents_of(alerts).len() == alerts.len());
    assert forall|i: int| 0 <= i < incidents.len() implies (#[trigger] incidents[i])@
        == alerts[i].incident by {
        assert(incident_views(incidents)[i] == incidents[i]@);
        assert(incidents_of(alerts)[i] == alerts[i].incident);
    }
}

} // verus!
