use vstd::prelude::*;

use crate::clock::ClockReading;
use crate::settings::AppSettings;
use crate::text::same_text;

verus! {

/// The day parts in the order of their start: name, hour, minute.
pub open spec fn schedule_slots() -> Seq<(Seq<char>, nat, nat)> {
    seq![
        ("after_midnight"@, 0nat, 5nat),
        ("morning"@, 9nat, 5nat),
        ("noon"@, 12nat, 35nat),
        ("evening"@, 18nat, 5nat),
        ("night"@, 23nat, 20nat),
    ]
}

/// Minutes after midnight at which slot `i` starts.
pub open spec fn slot_start(i: int) -> nat {
    schedule_slots()[i].1 * 60 + schedule_slots()[i].2
}

/// Among the first `k` slots, the last one that has started by minute `m`; the last
/// slot of the day when none has.
pub open spec fn latest_started(m: nat, k: int) -> Seq<char>
    decreases k,
{
    if k <= 0 {
        schedule_slots().last().0
    } else if slot_start(k - 1) <= m {
        schedule_slots()[k - 1].0
    } else {
        latest_started(m, k - 1)
    }
}

/// The day part that minute `m` of the day falls in: the last one started by then,
/// or, before the first one starts, the night before.
pub open spec fn spec_current_slot(m: nat) -> Seq<char> {
    latest_started(m, schedule_slots().len() as int)
}

fn slot_list() -> (r: Vec<(&'static str, u32, u32)>)
    ensures
        r@.len() == schedule_slots().len(),
        forall|i: int|
            0 <= i < r@.len() ==> (#[trigger] r@[i]).0@ == schedule_slots()[i].0 && r@[i].1
                == schedule_slots()[i].1 && r@[i].2 == schedule_slots()[i].2,
{
    let r = vec![
        ("after_midnight", 0u32, 5u32),
        ("morning", 9u32, 5u32),
        ("noon", 12u32, 35u32),
        ("evening", 18u32, 5u32),
        ("night", 23u32, 20u32),
    ];
    r
}

/// The day part that the reading falls in.
pub fn current_slot(now: &ClockReading) -> (r: &'static str)
    ensures
        r@ == spec_current_slot(now.minute_of_day()),
{
    let current = now.minutes_of_day();
    let slots = slot_list();
    let mut slot = slots[slots.len() - 1].0;
    let mut i: usize = 0;
    while i < slots.len()
        invariant
            i <= slots@.len(),
            slots@.len() == schedule_slots().len(),
            forall|j: int|
                0 <= j < slots@.len() ==> (#[trigger] slots@[j]).0@ == schedule_slots()[j].0
                    && slots@[j].1 == schedule_slots()[j].1 && slots@[j].2 == schedule_slots()[j].2,
            current == now.minute_of_day(),
            slot@ == latest_started(current as nat, i as int),
        decreases slots.len() - i,
    {
        let (id, hour, minute) = slots[i];
        let start = (hour as u64) * 60 + (minute as u64);
        if current >= start {
            slot = id;
        }
        i = i + 1;
    }
    slot
}

/// The slot that an entry made now belongs to: `"daily"` and `"manual"` rhythms keep
/// one slot; any other rhythm follows the day parts.
pub open spec fn spec_slot_for(rhythm: Seq<char>, m: nat) -> Seq<char> {
    if rhythm == "daily"@ {
        "daily"@
    } else if rhythm == "manual"@ {
        "manual"@
    } else {
        spec_current_slot(m)
    }
}

/// The slot that an entry made now belongs to under the given settings.
pub fn slot_for_settings(settings: &AppSettings, now: &ClockReading) -> (r: &'static str)
    ensures
        r@ == spec_slot_for(settings.rhythm@, now.minute_of_day()),
{
    if same_text(settings.rhythm.as_str(), "daily") {
        "daily"
    } else if same_text(settings.rhythm.as_str(), "manual") {
        "manual"
    } else {
        current_slot(now)
    }
}

/// A local wall-clock time some days from today.
#[derive(Clone, Copy, Debug, PartialEq, Eq, Structural)]
pub struct WallTime {
    pub days_ahead: u32,
    pub hour: u32,
    pub minute: u32,
}

/// 00:05 today when it is still ahead, else 00:05 tomorrow.
pub open spec fn spec_next_daily(m: nat) -> WallTime {
    if m < 5 {
        WallTime { days_ahead: 0, hour: 0, minute: 5 }
    } else {
        WallTime { days_ahead: 1, hour: 0, minute: 5 }
    }
}

/// The time of the next daily refresh: 00:05 today when it is still ahead, else
/// 00:05 tomorrow.
pub fn next_daily_target(now: &ClockReading) -> (r: WallTime)
    ensures
        r == spec_next_daily(now.minute_of_day()),
{
    let current = now.minutes_of_day();
    if current < 5 {
        WallTime { days_ahead: 0, hour: 0, minute: 5 }
    } else {
        WallTime { days_ahead: 1, hour: 0, minute: 5 }
    }
}

/// From slot `i` on, the start of the first slot still ahead of minute `m` today;
/// when none is, the first slot's start tomorrow.
pub open spec fn first_ahead(m: nat, i: int) -> WallTime
    decreases schedule_slots().len() - i,
{
    if i >= schedule_slots().len() || i < 0 {
        WallTime {
            days_ahead: 1,
            hour: schedule_slots()[0].1 as u32,
            minute: schedule_slots()[0].2 as u32,
        }
    } else if m < slot_start(i) {
        WallTime {
            days_ahead: 0,
            hour: schedule_slots()[i].1 as u32,
            minute: schedule_slots()[i].2 as u32,
        }
    } else {
        first_ahead(m, i + 1)
    }
}

/// The time of the next day-part refresh: the start of the first slot still ahead
/// today, else the first slot's start tomorrow.
pub fn next_scheduled_target(now: &ClockReading) -> (r: WallTime)
    ensures
        r == first_ahead(now.minute_of_day(), 0),
{
    let current = now.minutes_of_day();
    let slots = slot_list();
    let mut i: usize = 0;
    while i < slots.len()
        invariant
            i <= slots@.len(),
            slots@.len() == schedule_slots().len(),
            forall|j: int|
                0 <= j < slots@.len() ==> (#[trigger] slots@[j]).0@ == schedule_slots()[j].0
                    && slots@[j].1 == schedule_slots()[j].1 && slots@[j].2 == schedule_slots()[j].2,
            current == now.minute_of_day(),
            first_ahead(current as nat, 0) == first_ahead(current as nat, i as int),
        decreases slots.len() - i,
    {
        let (_, hour, minute) = slots[i];
        let start = (hour as u64) * 60 + (minute as u64);
        if current < start {
            return WallTime { days_ahead: 0, hour, minute };
        }
        i = i + 1;
    }
    let (_, hour, minute) = slots[0];
    WallTime { days_ahead: 1, hour, minute }
}

/// What the refresh loop does next.
#[derive(Clone, Copy, Debug, PartialEq, Eq, Structural)]
pub enum RefreshPlan {
    /// Nothing is scheduled (manual rhythm): look again in an hour.
    CheckLater,
    /// Refresh at this local time.
    At(WallTime),
}

/// The next refresh under a rhythm: none for `"manual"`, 00:05 for `"daily"`, the
/// next day part otherwise.
pub open spec fn spec_refresh_plan(rhythm: Seq<char>, m: nat) -> RefreshPlan {
    if rhythm == "manual"@ {
        RefreshPlan::CheckLater
    } else if rhythm == "daily"@ {
        RefreshPlan::At(spec_next_daily(m))
    } else {
        RefreshPlan::At(first_ahead(m, 0))
    }
}

/// The next refresh under a rhythm: none for `"manual"`, 00:05 for `"daily"`, the
/// next day part otherwise.
pub fn refresh_plan(rhythm: &str, now: &ClockReading) -> (r: RefreshPlan)
    ensures
        r == spec_refresh_plan(rhythm@, now.minute_of_day()),
{
    if same_text(rhythm, "manual") {
        RefreshPlan::CheckLater
    } else if same_text(rhythm, "daily") {
        RefreshPlan::At(next_daily_target(now))
    } else {
        RefreshPlan::At(next_scheduled_target(now))
    }
}

} // verus!
