use vstd::prelude::*;

use crate::alert::{alert_views, alerts_for, alerts_spec, Alert, AlertView};
use crate::event::{event_reading, event_readings, reading_of, DeviceEvent};
use crate::store::{store_after, store_after_all, transition_after, StateStore};
use crate::zone::{views_of, Reading, ReadingView, Zone};

verus! {

/// The alerts that one reading raises against store `m`.
pub open spec fn step_alerts(m: Map<Seq<char>, Zone>, r: ReadingView) -> Seq<AlertView> {
    match transition_after(m, r) {
        Some(t) => alerts_spec(t),
        None => Seq::empty(),
    }
}

/// The alerts that a sequence of readings raises, in order.
pub open spec fn alerts_after_all(m: Map<Seq<char>, Zone>, rs: Seq<ReadingView>) -> Seq<AlertView>
    decreases rs.len(),
{
    if rs.len() == 0 {
        Seq::empty()
    } else {
        step_alerts(m, rs[0]) + alerts_after_all(store_after(m, rs[0]), rs.drop_first())
    }
}

/// Turns readings into alerts: each reading updates the store, and each
/// transition it causes is turned into the alerts it calls for.
pub struct Monitor {
    store: StateStore,
}

impl View for Monitor {
    type V = Map<Seq<char>, Zone>;

    closed spec fn view(&self) -> Map<Seq<char>, Zone> {
        self.store@
    }
}

impl Monitor {
    pub closed spec fn wf(&self) -> bool {
        self.store.wf()
    }

    /// A monitor that has seen no source yet.
    pub fn new() -> (m: Self)
        ensures
            m.wf(),
            m@ == Map::<Seq<char>, Zone>::empty(),
    {
        Monitor { store: StateStore::new() }
    }

    /// The store of zones kept so far.
    pub fn store(&self) -> (s: &StateStore)
        requires
            self.wf(),
        ensures
            s.wf(),
            s@ == self@,
    {
        &self.store
    }

    /// Handles one reading and returns the alerts it raises.
    pub fn handle_reading(&mut self, r: &Reading) -> (alerts: Vec<Alert>)
        requires
            old(self).wf(),
        ensures
            final(self).wf(),
            final(self)@ == store_after(old(self)@, r@),
            alert_views(alerts@) == step_alerts(old(self)@, r@),
    {
        match self.store.update(r) {
            Some(t) => alerts_for(&t),
            None => {
                let alerts: Vec<Alert> = Vec::new();
                assert(alert_views(alerts@) =~= Seq::<AlertView>::empty());
                alerts
            },
        }
    }

    /// Handles readings in order and returns the alerts they raise, in order.
    pub fn handle_readings(&mut self, rs: &Vec<Reading>) -> (alerts: Vec<Alert>)
        requires
            old(self).wf(),
        ensures
            final(self).wf(),
            final(self)@ == store_after_all(old(self)@, views_of(rs@)),
            alert_views(alerts@) == alerts_after_all(old(self)@, views_of(rs@)),
    {
        let ghost m0 = self@;
        let mut alerts: Vec<Alert> = Vec::new();
        let mut i: usize = 0;
        assert(views_of(rs@).skip(0) =~= views_of(rs@));
        assert(alert_views(alerts@) + alerts_after_all(m0, views_of(rs@)) =~= alerts_after_all(m0, views_of(rs@)));
        while i < rs.len()
            invariant
                self.wf(),
                i <= rs.len(),
                store_after_all(m0, views_of(rs@)) == store_after_all(self@, views_of(rs@).skip(i as int)),
                alerts_after_all(m0, views_of(rs@)) == alert_views(alerts@)
                    + alerts_after_all(self@, views_of(rs@).skip(i as int)),
            decreases rs.len() - i,
        {
            let ghost before = self@;
            let ghost prev = alerts@;
            assert(views_of(rs@).skip(i as int).drop_first() =~= views_of(rs@).skip(i + 1));
            let mut more = self.handle_reading(&rs[i]);
            alerts.append(&mut more);
            assert(alert_views(alerts@) =~= alert_views(prev) + step_alerts(before, rs@[i as int]@));
            i += 1;
        }
        assert(views_of(rs@).skip(i as int) =~= Seq::<ReadingView>::empty());
        assert(alert_views(alerts@) + Seq::<AlertView>::empty() =~= alert_views(alerts@));
        alerts
    }

    /// Handles one device event: a battery event with well-formed attributes
    /// is handled as its reading; any other event changes nothing and
    /// raises no alert.
    pub fn handle_event(&mut self, ev: &DeviceEvent) -> (alerts: Vec<Alert>)
        requires
            old(self).wf(),
        ensures
            final(self).wf(),
            match event_reading(*ev) {
                Some(r) => final(self)@ == store_after(old(self)@, r)
                    && alert_views(alerts@) == step_alerts(old(self)@, r),
                None => final(self)@ == old(self)@ && alerts@.len() == 0,
            },
    {
        match reading_of(ev) {
            Some(r) => self.handle_reading(&r),
            None => Vec::new(),
        }
    }

    /// Handles a batch of device events in order and returns the alerts
    /// that the readings among them raise, in order.
    pub fn handle_events(&mut self, evs: &Vec<DeviceEvent>) -> (alerts: Vec<Alert>)
        requires
            old(self).wf(),
        ensures
            final(self).wf(),
            final(self)@ == store_after_all(old(self)@, event_readings(evs@)),
            alert_views(alerts@) == alerts_after_all(old(self)@, event_readings(evs@)),
    {
        let mut rs: Vec<Reading> = Vec::new();
        let mut i: usize = 0;
        assert(evs@.take(0) =~= Seq::<DeviceEvent>::empty());
        assert(views_of(rs@) =~= Seq::<ReadingView>::empty());
        while i < evs.len()
            invariant
                i <= evs.len(),
                views_of(rs@) == event_readings(evs@.take(i as int)),
            decreases evs.len() - i,
        {
            let ghost prev = rs@;
            assert(evs@.take(i + 1).drop_last() =~= evs@.take(i as int));
            match reading_of(&evs[i]) {
                Some(r) => {
                    rs.push(r);
                    assert(views_of(rs@) =~= views_of(prev) + seq![r@]);
                },
                None => {},
            }
            i += 1;
        }
        assert(evs@.take(i as int) =~= evs@);
        self.handle_readings(&rs)
    }
}

} // verus!
