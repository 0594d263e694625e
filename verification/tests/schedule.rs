use sotto::schedule::{
    current_slot, next_daily_target, next_scheduled_target, refresh_plan, RefreshPlan, WallTime,
};
use sotto::ClockReading;

fn at(hour: u32, minute: u32) -> ClockReading {
    ClockReading { nanos: Some(0), millis: 0, hour, minute }
}

#[test]
fn slots_follow_the_day_parts() {
    assert_eq!(current_slot(&at(0, 0)), "night");
    assert_eq!(current_slot(&at(0, 4)), "night");
    assert_eq!(current_slot(&at(0, 5)), "after_midnight");
    assert_eq!(current_slot(&at(9, 4)), "after_midnight");
    assert_eq!(current_slot(&at(12, 35)), "noon");
    assert_eq!(current_slot(&at(18, 4)), "noon");
    assert_eq!(current_slot(&at(23, 19)), "evening");
    assert_eq!(current_slot(&at(23, 20)), "night");
}

#[test]
fn daily_refresh_is_at_five_past_midnight() {
    assert_eq!(next_daily_target(&at(0, 3)), WallTime { days_ahead: 0, hour: 0, minute: 5 });
    assert_eq!(next_daily_target(&at(0, 5)), WallTime { days_ahead: 1, hour: 0, minute: 5 });
    assert_eq!(next_daily_target(&at(15, 0)), WallTime { days_ahead: 1, hour: 0, minute: 5 });
}

#[test]
fn scheduled_refresh_is_the_next_day_part() {
    assert_eq!(next_scheduled_target(&at(0, 0)), WallTime { days_ahead: 0, hour: 0, minute: 5 });
    assert_eq!(next_scheduled_target(&at(9, 5)), WallTime { days_ahead: 0, hour: 12, minute: 35 });
    assert_eq!(next_scheduled_target(&at(23, 19)), WallTime { days_ahead: 0, hour: 23, minute: 20 });
    assert_eq!(next_scheduled_target(&at(23, 20)), WallTime { days_ahead: 1, hour: 0, minute: 5 });
}

#[test]
fn refresh_plan_follows_the_rhythm() {
    assert_eq!(refresh_plan("manual", &at(10, 0)), RefreshPlan::CheckLater);
    assert_eq!(
        refresh_plan("daily", &at(10, 0)),
        RefreshPlan::At(WallTime { days_ahead: 1, hour: 0, minute: 5 })
    );
    assert_eq!(
        refresh_plan("moments", &at(10, 0)),
        RefreshPlan::At(WallTime { days_ahead: 0, hour: 12, minute: 35 })
    );
}
