use sotto::storage::{current_entry, latest_first, push_unique_text, recent_texts, with_entry};
use sotto::DailyEntry;

fn entry(text: &str, date: &str) -> DailyEntry {
    DailyEntry {
        date: date.into(),
        text: text.into(),
        source: "tool".into(),
        generated_at: format!("{}T00:05:00+08:00", date),
        style: "commute".into(),
        slot: "daily".into(),
    }
}

#[test]
fn current_entry_needs_date_slot_and_style() {
    let e = entry("一句话", "2026-06-24");
    assert!(current_entry(Some(e.clone()), "2026-06-24", "daily", "commute").is_some());
    assert!(current_entry(Some(e.clone()), "2026-06-25", "daily", "commute").is_none());
    assert!(current_entry(Some(e.clone()), "2026-06-24", "morning", "commute").is_none());
    assert!(current_entry(Some(e), "2026-06-24", "daily", "night").is_none());
    assert!(current_entry(None, "2026-06-24", "daily", "commute").is_none());
}

#[test]
fn push_unique_trims_and_skips_repeats() {
    let mut texts = Vec::new();
    push_unique_text(&mut texts, "  甲  ".into());
    push_unique_text(&mut texts, "甲".into());
    push_unique_text(&mut texts, "   ".into());
    push_unique_text(&mut texts, "乙".into());
    assert_eq!(texts, vec!["甲".to_string(), "乙".to_string()]);
}

#[test]
fn recent_texts_start_with_stored_then_latest_history() {
    let history = vec![entry("一", "d1"), entry("二", "d2"), entry(" 三 ", "d3"), entry("二", "d4")];
    let r = recent_texts(Some(entry("当前", "d5")), history.clone(), 30);
    assert_eq!(r, vec!["当前", "二", "三", "一"]);
    let r = recent_texts(None, history.clone(), 2);
    assert_eq!(r, vec!["二", "三"]);
    let r = recent_texts(Some(entry("当前", "d5")), history, 0);
    assert_eq!(r, vec!["当前", "二"]);
}

#[test]
fn latest_first_reverses_and_truncates() {
    let history = vec![entry("一", "d1"), entry("二", "d2"), entry("三", "d3")];
    let r: Vec<String> = latest_first(history.clone(), 2).into_iter().map(|e| e.text).collect();
    assert_eq!(r, vec!["三", "二"]);
    let r: Vec<String> = latest_first(history, 10).into_iter().map(|e| e.text).collect();
    assert_eq!(r, vec!["三", "二", "一"]);
}

#[test]
fn with_entry_drops_repeats_and_keeps_the_last_ones() {
    let history = vec![entry("一", "d1"), entry(" 二 ", "d2"), entry("三", "d3")];
    let r: Vec<String> = with_entry(history.clone(), entry("二", "d4"), 120)
        .into_iter()
        .map(|e| e.text)
        .collect();
    assert_eq!(r, vec!["一", "三", "二"]);
    let r: Vec<String> = with_entry(history.clone(), entry("四", "d4"), 2)
        .into_iter()
        .map(|e| e.text)
        .collect();
    assert_eq!(r, vec!["三", "四"]);
    assert!(with_entry(history, entry("四", "d4"), 0).is_empty());
}
