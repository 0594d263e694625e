use chrono::{DateTime, Local, TimeZone, Timelike};
use sotto::{normalize_settings, slot_for_settings, AppSettings, ClockReading};

fn at(hour: u32, minute: u32) -> ClockReading {
    let t: DateTime<Local> = Local
        .with_ymd_and_hms(2026, 6, 24, hour, minute, 0)
        .single()
        .expect("test time should be valid");
    ClockReading {
        nanos: t.timestamp_nanos_opt(),
        millis: t.timestamp_millis(),
        hour: t.hour(),
        minute: t.minute(),
    }
}

#[test]
fn normalizes_unknown_settings() {
    let settings = normalize_settings(AppSettings {
        style: "other".into(),
        rhythm: "often".into(),
        sharpness: "loud".into(),
        personal_note: "  城市、晚睡、写代码  ".into(),
    });

    assert_eq!(settings.style, "commute");
    assert_eq!(settings.rhythm, "moments");
    assert_eq!(settings.sharpness, "quiet");
    assert_eq!(settings.personal_note, "城市、晚睡、写代码");
}

#[test]
fn moments_rhythm_uses_day_part_slots() {
    let settings = AppSettings {
        style: "commute".into(),
        rhythm: "moments".into(),
        sharpness: "quiet".into(),
        personal_note: String::new(),
    };

    assert_eq!(slot_for_settings(&settings, &at(8, 40)), "after_midnight");
    assert_eq!(slot_for_settings(&settings, &at(9, 5)), "morning");
    assert_eq!(slot_for_settings(&settings, &at(18, 30)), "evening");
}

#[test]
fn daily_and_manual_rhythm_use_stable_slots() {
    let mut settings = AppSettings {
        style: "commute".into(),
        rhythm: "daily".into(),
        sharpness: "quiet".into(),
        personal_note: String::new(),
    };
    assert_eq!(slot_for_settings(&settings, &at(18, 30)), "daily");

    settings.rhythm = "manual".into();
    assert_eq!(slot_for_settings(&settings, &at(18, 30)), "manual");
}

#[test]
fn normalizing_twice_changes_nothing() {
    let once = normalize_settings(AppSettings {
        style: "tender".into(),
        rhythm: "weekly".into(),
        sharpness: "soft".into(),
        personal_note: format!("  {}  ", "夜".repeat(100)),
    });
    assert_eq!(once.personal_note.chars().count(), 80);
    let twice = normalize_settings(once.clone());
    assert_eq!(twice.style, once.style);
    assert_eq!(twice.rhythm, once.rhythm);
    assert_eq!(twice.sharpness, once.sharpness);
    assert_eq!(twice.personal_note, once.personal_note);
    assert!(!sotto::settings::needs_normalizing(&once));
}

#[test]
fn note_cut_before_a_space_is_trimmed_again() {
    let note = format!("a{}b", " ".repeat(79));
    let once = normalize_settings(AppSettings {
        style: "work".into(),
        rhythm: "daily".into(),
        sharpness: "sharp".into(),
        personal_note: note,
    });
    assert_eq!(once.personal_note.chars().count(), 80);
    assert!(sotto::settings::needs_normalizing(&once));
    assert_eq!(normalize_settings(once).personal_note, "a");
}
