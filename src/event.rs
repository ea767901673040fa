use vstd::prelude::*;

use crate::zone::{Mode, Reading, ReadingView};

verus! {

/// The attributes of a device change event that matter here, each absent
/// where the device did not report it or reported it in a form that is not
/// text.
#[derive(Clone, Debug, PartialEq, Eq)]
pub struct DeviceEvent {
    /// The device's `type` attribute; power sources report `Battery`.
    pub device_type: Option<String>,
    /// The device's system name, which identifies the source.
    pub name: Option<String>,
    /// The `status` attribute: `Charging`, `Discharging`, or something else.
    pub status: Option<String>,
    /// The `capacity` attribute: the charge in percent, in decimal.
    pub capacity: Option<String>,
}

pub open spec fn is_digit(c: char) -> bool {
    '0' <= c <= '9'
}

/// The value of a string of decimal digits.
pub open spec fn decimal_value(s: Seq<char>) -> nat
    decreases s.len(),
{
    if s.len() == 0 {
        0
    } else {
        decimal_value(s.drop_last()) * 10 + (s.last() as nat - '0' as nat) as nat
    }
}

/// A charge in percent written in decimal: one or more digits whose value
/// is at most 100.
pub open spec fn percent_spec(s: Seq<char>) -> Option<u8> {
    if 0 < s.len() && (forall|i: int| 0 <= i < s.len() ==> is_digit(#[trigger] s[i]))
        && decimal_value(s) <= 100 {
        Some(decimal_value(s) as u8)
    } else {
        None
    }
}

/// The mode that a `status` attribute names.
pub open spec fn mode_spec(status: Seq<char>) -> Mode {
    if status == "Charging"@ {
        Mode::Charging
    } else if status == "Discharging"@ {
        Mode::Discharging
    } else {
        Mode::Other
    }
}

/// The reading that an event carries: only a battery's events carry one,
/// and only where its name, status and capacity are all present and the
/// capacity is a valid percentage.
pub open spec fn event_reading(ev: DeviceEvent) -> Option<ReadingView> {
    if ev.device_type is Some && ev.device_type->0@ == "Battery"@ && ev.name is Some
        && ev.status is Some && ev.capacity is Some && percent_spec(ev.capacity->0@) is Some {
        Some(ReadingView {
            source: ev.name->0@,
            percent: percent_spec(ev.capacity->0@)->0,
            mode: mode_spec(ev.status->0@),
        })
    } else {
        None
    }
}

/// The readings that a sequence of events carries, in order.
pub open spec fn event_readings(evs: Seq<DeviceEvent>) -> Seq<ReadingView>
    decreases evs.len(),
{
    if evs.len() == 0 {
        Seq::empty()
    } else {
        event_readings(evs.drop_last()) + match event_reading(evs.last()) {
            Some(r) => seq![r],
            None => Seq::empty(),
        }
    }
}

proof fn lemma_prefix_value_bounded(s: Seq<char>, k: int)
    requires
        0 <= k <= s.len(),
        forall|i: int| 0 <= i < s.len() ==> is_digit(#[trigger] s[i]),
    ensures
        decimal_value(s.take(k)) <= decimal_value(s),
    decreases s.len(),
{
    if k < s.len() {
        assert(s.drop_last().take(k) =~= s.take(k));
        lemma_prefix_value_bounded(s.drop_last(), k);
    } else {
        assert(s.take(k) =~= s);
    }
}

/// Reads a charge in percent written in decimal digits; `None` where the
/// text is empty, holds anything but digits, or exceeds 100.
pub fn parse_percent(s: &str) -> (r: Option<u8>)
    ensures
        r == percent_spec(s@),
{
    let n = s.unicode_len();
    if n == 0 {
        return None;
    }
    let mut value: u32 = 0;
    let mut i: usize = 0;
    assert(s@.take(0) =~= Seq::<char>::empty());
    while i < n
        invariant
            n == s@.len(),
            i <= n,
            value <= 100,
            value == decimal_value(s@.take(i as int)),
            forall|j: int| 0 <= j < i ==> is_digit(#[trigger] s@[j]),
        decreases n - i,
    {
        let c = s.get_char(i);
        if !('0' <= c && c <= '9') {
            return None;
        }
        assert(s@.take(i + 1).drop_last() =~= s@.take(i as int));
        value = value * 10 + (c as u32 - '0' as u32);
        i += 1;
        if value > 100 {
            proof {
                if forall|j: int| 0 <= j < s@.len() ==> is_digit(#[trigger] s@[j]) {
                    lemma_prefix_value_bounded(s@, i as int);
                }
            }
            return None;
        }
    }
    assert(s@.take(n as int) =~= s@);
    Some(value as u8)
}

/// The mode that a `status` attribute names.
pub fn parse_mode(status: &String) -> (m: Mode)
    ensures
        m == mode_spec(status@),
{
    if *status == String::from_str("Charging") {
        Mode::Charging
    } else if *status == String::from_str("Discharging") {
        Mode::Discharging
    } else {
        Mode::Other
    }
}

/// Extracts the reading that an event carries. Events of other devices and
/// events with missing or malformed attributes carry none.
pub fn reading_of(ev: &DeviceEvent) -> (r: Option<Reading>)
    ensures
        match r {
            Some(x) => event_reading(*ev) == Some(x@),
            None => event_reading(*ev) is None,
        },
{
    match (&ev.device_type, &ev.name, &ev.status, &ev.capacity) {
        (Some(device_type), Some(name), Some(status), Some(capacity)) => {
            if *device_type != String::from_str("Battery") {
                return None;
            }
            match parse_percent(capacity.as_str()) {
                Some(percent) => Some(Reading { source: name.clone(), percent, mode: parse_mode(status) }),
                None => None,
            }
        },
        _ => None,
    }
}

} // verus!
