use sotto::{clean, normalize_sharpness, normalize_style, quality_issue};

#[test]
fn clean_strips_meta_and_quotes() {
    let raw = "好的，这里是一句：\n“电梯到十七层才停，镜子里的人终于把表情收回口袋。”";
    assert_eq!(
        clean(raw.into()),
        "电梯到十七层才停，镜子里的人终于把表情收回口袋。"
    );
}

#[test]
fn quality_rejects_formulaic_lines() {
    let text = "真正的成熟不是学会忍耐，而是把所有委屈都交给时间。";
    assert!(quality_issue(text, &[]).is_some());
}

#[test]
fn quality_rejects_recent_duplicates() {
    let text = "便利店的灯太亮，显得深夜买来的安慰也有保质期。";
    assert!(quality_issue(text, &[text.into()]).is_some());
}

#[test]
fn quality_accepts_concrete_observations() {
    let text = "洗衣机停下后，房间安静得像刚刚替谁保守了一个小秘密。";
    assert!(quality_issue(text, &[]).is_none());
}

#[test]
fn unknown_style_falls_back_to_commute() {
    assert_eq!(normalize_style("unknown"), "commute");
}

#[test]
fn unknown_sharpness_falls_back_to_quiet() {
    assert_eq!(normalize_sharpness("loud"), "quiet");
}
