//! Properties of the store and the alert rules over whole runs of readings.
use vstd::prelude::*;

use crate::alert::{alert_kinds, alerts_spec, AlertKind, AlertView};
use crate::monitor::{alerts_after_all, step_alerts};
use crate::store::{
    store_after, store_after_all, stored_zone, transition_after, transitions_after_all, TransitionView,
};
use crate::zone::{family_spec, is_threshold_spec, zone_of, Family, Mode, ReadingView, Zone};

verus! {

/// The transition, if any, as a sequence of zero or one elements.
pub open spec fn as_seq(t: Option<TransitionView>) -> Seq<TransitionView> {
    match t {
        Some(x) => seq![x],
        None => Seq::empty(),
    }
}

/// The zones of the readings of `source`, in order.
pub open spec fn zones_of_source(rs: Seq<ReadingView>, source: Seq<char>) -> Seq<Zone>
    decreases rs.len(),
{
    if rs.len() == 0 {
        Seq::empty()
    } else {
        (if rs[0].source == source {
            seq![zone_of(rs[0])]
        } else {
            Seq::empty()
        }) + zones_of_source(rs.drop_first(), source)
    }
}

/// How often consecutive zones differ in family, starting after `prev`.
pub open spec fn family_changes(prev: Zone, zs: Seq<Zone>) -> nat
    decreases zs.len(),
{
    if zs.len() == 0 {
        0
    } else {
        (if family_spec(prev) != family_spec(zs[0]) {
            1nat
        } else {
            0nat
        }) + family_changes(zs[0], zs.drop_first())
    }
}

/// How often a zone is low, critical or high and differs from the zone
/// before it, starting after `prev`.
pub open spec fn threshold_entries(prev: Zone, zs: Seq<Zone>) -> nat
    decreases zs.len(),
{
    if zs.len() == 0 {
        0
    } else {
        (if is_threshold_spec(zs[0]) && zs[0] != prev {
            1nat
        } else {
            0nat
        }) + threshold_entries(zs[0], zs.drop_first())
    }
}

/// The number of alerts of `kind` about `source`.
pub open spec fn count_alerts(a: Seq<AlertView>, source: Seq<char>, kind: AlertKind) -> nat
    decreases a.len(),
{
    if a.len() == 0 {
        0
    } else {
        (if a[0].source == source && a[0].kind == kind {
            1nat
        } else {
            0nat
        }) + count_alerts(a.drop_first(), source, kind)
    }
}

/// The readings of `source`, in order.
pub open spec fn readings_of_source(rs: Seq<ReadingView>, source: Seq<char>) -> Seq<ReadingView>
    decreases rs.len(),
{
    if rs.len() == 0 {
        Seq::empty()
    } else {
        (if rs[0].source == source {
            seq![rs[0]]
        } else {
            Seq::empty()
        }) + readings_of_source(rs.drop_first(), source)
    }
}

/// The transitions of `source`, in order.
pub open spec fn transitions_of_source(ts: Seq<TransitionView>, source: Seq<char>) -> Seq<TransitionView>
    decreases ts.len(),
{
    if ts.len() == 0 {
        Seq::empty()
    } else {
        (if ts[0].source == source {
            seq![ts[0]]
        } else {
            Seq::empty()
        }) + transitions_of_source(ts.drop_first(), source)
    }
}

proof fn lemma_repeat_settled(m: Map<Seq<char>, Zone>, r: ReadingView, rs: Seq<ReadingView>)
    requires
        m.contains_key(r.source),
        m[r.source] == zone_of(r),
        forall|i: int| 0 <= i < rs.len() ==> rs[i] == r,
    ensures
        transitions_after_all(m, rs) == Seq::<TransitionView>::empty(),
    decreases rs.len(),
{
    if rs.len() > 0 {
        assert(store_after(m, r) =~= m);
        lemma_repeat_settled(m, r, rs.drop_first());
        assert(transitions_after_all(m, rs) =~= Seq::<TransitionView>::empty());
    }
}

/// Repeating a reading causes no transition after its first occurrence:
/// over a sequence of identical readings, the only transition is the one
/// that the first reading causes, if its zone differs from the stored one.
pub proof fn lemma_repeated_reading(m: Map<Seq<char>, Zone>, r: ReadingView, rs: Seq<ReadingView>)
    requires
        rs.len() > 0,
        forall|i: int| 0 <= i < rs.len() ==> rs[i] == r,
    ensures
        transitions_after_all(m, rs) == as_seq(transition_after(m, r)),
{
    let m1 = store_after(m, r);
    lemma_repeat_settled(m1, r, rs.drop_first());
    assert(transitions_after_all(m, rs) =~= as_seq(transition_after(m, r)));
}

proof fn lemma_count_concat(a: Seq<AlertView>, b: Seq<AlertView>, source: Seq<char>, kind: AlertKind)
    ensures
        count_alerts(a + b, source, kind) == count_alerts(a, source, kind) + count_alerts(b, source, kind),
    decreases a.len(),
{
    if a.len() > 0 {
        assert((a + b).drop_first() =~= a.drop_first() + b);
        lemma_count_concat(a.drop_first(), b, source, kind);
    } else {
        assert(a + b =~= b);
    }
}

proof fn lemma_count_step(m: Map<Seq<char>, Zone>, r: ReadingView, source: Seq<char>)
    ensures
        count_alerts(step_alerts(m, r), source, AlertKind::ModeChange) == if r.source == source
            && family_spec(stored_zone(m, source)) != family_spec(zone_of(r)) {
            1nat
        } else {
            0nat
        },
        count_alerts(step_alerts(m, r), source, AlertKind::Threshold) == if r.source == source
            && is_threshold_spec(zone_of(r)) && zone_of(r) != stored_zone(m, source) {
            1nat
        } else {
            0nat
        },
{
    let a = step_alerts(m, r);
    match transition_after(m, r) {
        Some(t) => {
            let ks = alert_kinds(t.from, t.to);
            assert(a.len() == ks.len());
            assert(a.len() <= 2);
            if a.len() > 0 {
                assert(a.drop_first().len() <= 1);
                if a.drop_first().len() > 0 {
                    assert(a.drop_first().drop_first().len() == 0);
                }
            }
            reveal_with_fuel(count_alerts, 3);
        },
        None => {
            reveal_with_fuel(count_alerts, 1);
        },
    }
}

/// Alerts are never duplicated: over any run, the mode-change alerts about
/// a source are exactly as many as the times that its consecutive zones
/// differ in family, and its threshold alerts exactly as many as the times
/// that its zone is low, critical or high and differs from the zone before.
/// A source that has no stored zone counts as being in `Other`.
pub proof fn lemma_alert_counts(m: Map<Seq<char>, Zone>, rs: Seq<ReadingView>, source: Seq<char>)
    ensures
        count_alerts(alerts_after_all(m, rs), source, AlertKind::ModeChange)
            == family_changes(stored_zone(m, source), zones_of_source(rs, source)),
        count_alerts(alerts_after_all(m, rs), source, AlertKind::Threshold)
            == threshold_entries(stored_zone(m, source), zones_of_source(rs, source)),
    decreases rs.len(),
{
    if rs.len() > 0 {
        let r = rs[0];
        let m1 = store_after(m, r);
        lemma_alert_counts(m1, rs.drop_first(), source);
        lemma_count_step(m, r, source);
        lemma_count_concat(step_alerts(m, r), alerts_after_all(m1, rs.drop_first()), source, AlertKind::ModeChange);
        lemma_count_concat(step_alerts(m, r), alerts_after_all(m1, rs.drop_first()), source, AlertKind::Threshold);
        let rest = zones_of_source(rs.drop_first(), source);
        if r.source == source {
            assert(zones_of_source(rs, source) =~= seq![zone_of(r)] + rest);
            assert((seq![zone_of(r)] + rest).drop_first() =~= rest);
            assert(stored_zone(m1, source) == zone_of(r));
        } else {
            assert(zones_of_source(rs, source) =~= rest);
            assert(stored_zone(m1, source) == stored_zone(m, source));
        }
    }
}

/// A reading whose mode is neither charging nor discharging classifies as
/// `Other` whatever its charge, and a change into `Other` from a charging
/// or discharging zone raises exactly one alert, a mode change.
pub proof fn lemma_collapse_to_other(m: Map<Seq<char>, Zone>, r: ReadingView)
    requires
        r.mode == Mode::Other,
    ensures
        zone_of(r) == Zone::Other,
        family_spec(stored_zone(m, r.source)) != Family::Other ==> step_alerts(m, r).len() == 1
            && step_alerts(m, r)[0].kind == AlertKind::ModeChange,
{
    if family_spec(stored_zone(m, r.source)) != Family::Other {
        let t = transition_after(m, r)->0;
        assert(alert_kinds(t.from, t.to) =~= seq![AlertKind::ModeChange]);
    }
}

/// A reading of one source leaves the stored zone of every other source as
/// it was.
pub proof fn lemma_other_sources_kept(m: Map<Seq<char>, Zone>, r: ReadingView, other: Seq<char>)
    requires
        other != r.source,
    ensures
        stored_zone(store_after(m, r), other) == stored_zone(m, other),
{
}

proof fn lemma_run_depends_on_own_zone(
    m1: Map<Seq<char>, Zone>,
    m2: Map<Seq<char>, Zone>,
    rs: Seq<ReadingView>,
    source: Seq<char>,
)
    requires
        stored_zone(m1, source) == stored_zone(m2, source),
        forall|i: int| 0 <= i < rs.len() ==> (#[trigger] rs[i]).source == source,
    ensures
        transitions_after_all(m1, rs) == transitions_after_all(m2, rs),
    decreases rs.len(),
{
    if rs.len() > 0 {
        lemma_run_depends_on_own_zone(store_after(m1, rs[0]), store_after(m2, rs[0]), rs.drop_first(), source);
    }
}

proof fn lemma_readings_of_source_own(rs: Seq<ReadingView>, source: Seq<char>)
    ensures
        forall|i: int| 0 <= i < readings_of_source(rs, source).len()
            ==> (#[trigger] readings_of_source(rs, source)[i]).source == source,
    decreases rs.len(),
{
    if rs.len() > 0 {
        lemma_readings_of_source_own(rs.drop_first(), source);
    }
}

proof fn lemma_filter_concat(a: Seq<TransitionView>, b: Seq<TransitionView>, source: Seq<char>)
    ensures
        transitions_of_source(a + b, source) == transitions_of_source(a, source) + transitions_of_source(b, source),
    decreases a.len(),
{
    if a.len() > 0 {
        assert((a + b).drop_first() =~= a.drop_first() + b);
        lemma_filter_concat(a.drop_first(), b, source);
        assert(transitions_of_source(a + b, source) =~= transitions_of_source(a, source) + transitions_of_source(b, source));
    } else {
        assert(a + b =~= b);
        assert(transitions_of_source(a, source) + transitions_of_source(b, source) =~= transitions_of_source(b, source));
    }
}

/// Sources are handled independently: the transitions of one source in a
/// run over interleaved readings are exactly the transitions of a run over
/// that source's readings alone.
pub proof fn lemma_sources_independent(m: Map<Seq<char>, Zone>, rs: Seq<ReadingView>, source: Seq<char>)
    ensures
        transitions_of_source(transitions_after_all(m, rs), source)
            == transitions_after_all(m, readings_of_source(rs, source)),
    decreases rs.len(),
{
    if rs.len() > 0 {
        let r = rs[0];
        let m1 = store_after(m, r);
        let rest = readings_of_source(rs.drop_first(), source);
        lemma_sources_independent(m1, rs.drop_first(), source);
        lemma_filter_concat(as_seq(transition_after(m, r)), transitions_after_all(m1, rs.drop_first()), source);
        assert(transitions_after_all(m, rs) == as_seq(transition_after(m, r)) + transitions_after_all(m1, rs.drop_first()));
        lemma_readings_of_source_own(rs.drop_first(), source);
        reveal_with_fuel(transitions_of_source, 2);
        if r.source == source {
            assert(readings_of_source(rs, source) =~= seq![r] + rest);
            assert((seq![r] + rest).drop_first() =~= rest);
            assert(transitions_of_source(as_seq(transition_after(m, r)), source) =~= as_seq(transition_after(m, r)));
        } else {
            assert(readings_of_source(rs, source) =~= rest);
            assert(transitions_of_source(as_seq(transition_after(m, r)), source) =~= Seq::<TransitionView>::empty());
            lemma_run_depends_on_own_zone(m1, m, rest, source);
        }
    }
}

} // verus!
