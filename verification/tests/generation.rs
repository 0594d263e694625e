use sotto::generation::Stage;
use sotto::{generate, ClockReading, GenerateError, Step, Tool};

fn clock() -> ClockReading {
    ClockReading { nanos: Some(1_750_000_000_123_456_789), millis: 1_750_000_000_123, hour: 10, minute: 0 }
}

fn ask(step: Step) -> (Tool, String) {
    match step {
        Step::Ask { tool, prompt } => (tool, prompt),
        Step::Done(_) => panic!("expected a request"),
    }
}

const GOOD: &str = "洗衣机停下后，房间安静得像刚刚替谁保守了一个小秘密。";
const FORMULAIC: &str = "真正的成熟不是学会忍耐，而是把所有委屈都交给时间。";

#[test]
fn first_accepted_reply_wins() {
    let mut g = generate(Vec::new(), "night", "sharp", "  城市  ", 7);
    assert_eq!(g.stage(), Stage::NotStarted);
    let (tool, prompt) = ask(g.begin(&clock()));
    assert_eq!(tool, Tool::Preferred);
    assert!(prompt.contains("深夜自嘲"));
    assert!(prompt.contains("更锋利"));
    assert!(prompt.contains("城市。这是用户自己的生活关键词"));
    let raw = format!("好的：\n“{}”\n", GOOD);
    match g.on_reply(Some(raw), &clock()) {
        Step::Done(Ok((text, tool))) => {
            assert_eq!(text, GOOD);
            assert_eq!(tool, Tool::Preferred);
        }
        _ => panic!("expected the sentence"),
    }
    assert_eq!(g.stage(), Stage::Finished);
}

#[test]
fn fallback_gets_the_same_prompt_and_failures_reach_the_next_attempt() {
    let mut g = generate(Vec::new(), "commute", "quiet", "", 1);
    let (_, first_prompt) = ask(g.begin(&clock()));
    let (tool, prompt) = ask(g.on_reply(Some(FORMULAIC.to_string()), &clock()));
    assert_eq!(tool, Tool::Fallback);
    assert_eq!(prompt, first_prompt);
    let (tool, next_prompt) = ask(g.on_reply(None, &clock()));
    assert_eq!(tool, Tool::Preferred);
    assert!(next_prompt.contains(&format!("1. {}（句式太像常见格言）", FORMULAIC)));
}

#[test]
fn last_candidate_wins_when_nothing_passes() {
    let mut g = generate(Vec::new(), "commute", "quiet", "", 1);
    let _ = ask(g.begin(&clock()));
    let mut step = g.on_reply(None, &clock());
    for i in 0..5 {
        let _ = ask(step);
        let reply = if i == 2 { Some(FORMULAIC.to_string()) } else { Some("   ".to_string()) };
        step = g.on_reply(reply, &clock());
    }
    match step {
        Step::Done(Ok((text, tool))) => {
            assert_eq!(text, FORMULAIC);
            assert_eq!(tool, Tool::Fallback);
        }
        _ => panic!("expected the last candidate"),
    }
}

#[test]
fn no_reply_at_all_is_an_error_after_three_attempts() {
    let mut g = generate(Vec::new(), "commute", "quiet", "", 1);
    assert!(!g.awaits_reply());
    let mut step = g.begin(&clock());
    let mut asks = 0;
    loop {
        match step {
            Step::Ask { .. } => {
                assert!(g.awaits_reply());
                asks += 1;
                step = g.on_reply(None, &clock());
            }
            Step::Done(result) => {
                assert!(matches!(result, Err(GenerateError::NoCliAvailable)));
                assert!(!g.awaits_reply());
                break;
            }
        }
    }
    assert_eq!(asks, 6);
}

#[test]
fn recent_repeat_is_rejected_during_generation() {
    let mut g = generate(vec![GOOD.to_string()], "commute", "quiet", "", 1);
    let _ = ask(g.begin(&clock()));
    let (tool, _) = ask(g.on_reply(Some(GOOD.to_string()), &clock()));
    assert_eq!(tool, Tool::Fallback);
}
