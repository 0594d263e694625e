use vstd::prelude::*;

use crate::text::{chars_of, lemma_texts_push, same_text, string_of, texts};

verus! {
/// Everyday moments that a prompt may start from.
pub open spec fn starting_points() -> Seq<Seq<char>> {
    seq![
        "等电梯时每个人都盯着楼层数字"@,
        "深夜厨房里只剩冰箱的低鸣"@,
        "下雨通勤时鞋尖先湿了一小块"@,
        "会议结束后屏幕还停在共享画面"@,
        "付款失败后重新输入验证码"@,
        "删除聊天记录前手指停了一秒"@,
        "整理旧物时翻到一张过期票根"@,
        "手机电量到 1% 时突然变得诚实"@,
        "凌晨自动售货机的灯比人更清醒"@,
        "洗衣机停止后房间短暂安静"@,
        "输入框里删掉一整段没有发出的话"@,
        "外卖袋里的塑料勺永远多一把"@,
        "地铁进站前风先替人抵达"@,
        "电梯镜子里的人都像临时演员"@,
        "浏览器标签页多到看不见标题"@,
        "日历提醒弹出时事情已经变形"@,
        "打包行李时最占地方的是犹豫"@,
        "耳机断连后世界忽然恢复原价"@,
        "便利店微波炉倒计时的最后三秒"@,
        "门锁咔哒一声后房间开始替人保密"@,
        "电脑风扇突然转响，像某种辩解"@,
        "闹钟响过一次后清晨变得可疑"@,
        "排队时前面的人总在最后一刻加东西"@,
        "备忘录里躺着一堆从未开始的改变"@,
    ]
}

fn starting_points_list() -> (r: Vec<&'static str>)
    ensures
        r@.len() == starting_points().len(),
        forall|i: int| 0 <= i < r@.len() ==> #[trigger] r@[i]@ == starting_points()[i],
{
    let r = vec![
        "等电梯时每个人都盯着楼层数字",
        "深夜厨房里只剩冰箱的低鸣",
        "下雨通勤时鞋尖先湿了一小块",
        "会议结束后屏幕还停在共享画面",
        "付款失败后重新输入验证码",
        "删除聊天记录前手指停了一秒",
        "整理旧物时翻到一张过期票根",
        "手机电量到 1% 时突然变得诚实",
        "凌晨自动售货机的灯比人更清醒",
        "洗衣机停止后房间短暂安静",
        "输入框里删掉一整段没有发出的话",
        "外卖袋里的塑料勺永远多一把",
        "地铁进站前风先替人抵达",
        "电梯镜子里的人都像临时演员",
        "浏览器标签页多到看不见标题",
        "日历提醒弹出时事情已经变形",
        "打包行李时最占地方的是犹豫",
        "耳机断连后世界忽然恢复原价",
        "便利店微波炉倒计时的最后三秒",
        "门锁咔哒一声后房间开始替人保密",
        "电脑风扇突然转响，像某种辩解",
        "闹钟响过一次后清晨变得可疑",
        "排队时前面的人总在最后一刻加东西",
        "备忘录里躺着一堆从未开始的改变",
    ];
    r
}

/// Angles from which a prompt may look at its moment.
pub open spec fn angles() -> Seq<Seq<char>> {
    seq![
        "写出一个人如何把小事当成秩序"@,
        "写出控制感如何在细节里露馅"@,
        "写出亲密关系里的轻微错位"@,
        "写出效率背后隐藏的疲惫"@,
        "写出人对确定性的迷信"@,
        "写出一个动作里的自我欺骗"@,
        "写出城市生活里不被承认的孤独"@,
        "写出时间如何被琐事偷偷拿走"@,
        "写出体面和狼狈之间的薄边界"@,
        "写出沉默比表达更费力的时刻"@,
        "写出某种轻微但准确的自嘲"@,
        "写出人如何用忙碌绕开真正的问题"@,
    ]
}

fn angles_list() -> (r: Vec<&'static str>)
    ensures
        r@.len() == angles().len(),
        forall|i: int| 0 <= i < r@.len() ==> #[trigger] r@[i]@ == angles()[i],
{
    let r = vec![
        "写出一个人如何把小事当成秩序",
        "写出控制感如何在细节里露馅",
        "写出亲密关系里的轻微错位",
        "写出效率背后隐藏的疲惫",
        "写出人对确定性的迷信",
        "写出一个动作里的自我欺骗",
        "写出城市生活里不被承认的孤独",
        "写出时间如何被琐事偷偷拿走",
        "写出体面和狼狈之间的薄边界",
        "写出沉默比表达更费力的时刻",
        "写出某种轻微但准确的自嘲",
        "写出人如何用忙碌绕开真正的问题",
    ];
    r
}

/// Emotional temperatures that a prompt may ask for.
pub open spec fn tones() -> Seq<Seq<char>> {
    seq![
        "冷一点，但不要刻薄"@,
        "轻微幽默，但不要段子感"@,
        "安静，像刚刚想明白又不急着说服别人"@,
        "有一点刺痛，但不煽情"@,
        "克制，留一点没说完的余味"@,
        "平实，像把一个小事实摆正"@,
        "温柔但不安慰"@,
        "疏离，像站远半步看自己"@,
    ]
}

fn tones_list() -> (r: Vec<&'static str>)
    ensures
        r@.len() == tones().len(),
        forall|i: int| 0 <= i < r@.len() ==> #[trigger] r@[i]@ == tones()[i],
{
    let r = vec![
        "冷一点，但不要刻薄",
        "轻微幽默，但不要段子感",
        "安静，像刚刚想明白又不急着说服别人",
        "有一点刺痛，但不煽情",
        "克制，留一点没说完的余味",
        "平实，像把一个小事实摆正",
        "温柔但不安慰",
        "疏离，像站远半步看自己",
    ];
    r
}

/// Textures of language that a prompt may ask for.
pub open spec fn textures() -> Seq<Seq<char>> {
    seq![
        "保留一个具体物件"@,
        "保留一个声音或动作"@,
        "保留一点时间感"@,
        "保留轻微的荒诞感"@,
        "让结尾落在一个具体细节上"@,
        "让句子像观察，不像结论"@,
        "少用抽象名词，多用可看见的东西"@,
        "让人读完后先停一下，而不是立刻点头"@,
    ]
}

fn textures_list() -> (r: Vec<&'static str>)
    ensures
        r@.len() == textures().len(),
        forall|i: int| 0 <= i < r@.len() ==> #[trigger] r@[i]@ == textures()[i],
{
    let r = vec![
        "保留一个具体物件",
        "保留一个声音或动作",
        "保留一点时间感",
        "保留轻微的荒诞感",
        "让结尾落在一个具体细节上",
        "让句子像观察，不像结论",
        "少用抽象名词，多用可看见的东西",
        "让人读完后先停一下，而不是立刻点头",
    ];
    r
}

} // verus!

verus! {

/// `x` rotated left by `r` bits.
pub open spec fn rotl(x: u64, r: u64) -> u64 {
    if r == 0 || r >= 64 {
        x
    } else {
        (x << r) | (x >> (64 - r))
    }
}

/// `x` rotated left by `r` bits (`r` below 64).
pub fn rotate_left(x: u64, r: u32) -> (v: u64)
    requires
        r < 64,
    ensures
        v == rotl(x, r as u64),
{
    if r == 0 {
        x
    } else {
        (x << r) | (x >> (64 - r))
    }
}

/// The index into a pool of `len` items that `seed` and `salt` select.
pub open spec fn pick_index(len: nat, seed: u64, salt: u64) -> int {
    ((rotl(vstd::wrapping::u64_specs::wrapping_add(seed, salt), 17) as usize) as int) % (len as int)
}

/// The item of `items` that `seed` and `salt` select.
pub fn pick(items: &Vec<&'static str>, seed: u64, salt: u64) -> (r: &'static str)
    requires
        items@.len() > 0,
    ensures
        r == items@[pick_index(items@.len(), seed, salt)],
{
    let mixed = rotate_left(seed.wrapping_add(salt), 17) as usize;
    items[mixed % items.len()]
}

/// The seed of one attempt: the clock reading in nanoseconds, the process id
/// shifted left by 16 bits and the attempt number times a fixed odd constant,
/// added with wrap-around, then rotated left by `11 * attempt % 63` bits.
pub open spec fn mix_seed(nanos: i64, pid: u32, attempt: usize) -> u64 {
    let base = vstd::wrapping::u64_specs::wrapping_add(
        vstd::wrapping::u64_specs::wrapping_add(nanos as u64, (pid as u64) << 16u64),
        vstd::wrapping::u64_specs::wrapping_mul(attempt as u64, 0x9e37_79b9_7f4a_7c15u64),
    );
    rotl(base, ((attempt * 11) % 63) as u64)
}

/// The seed of one attempt, from a clock reading in nanoseconds and the process id.
pub fn mix_seed_exec(nanos: i64, pid: u32, attempt: usize) -> (r: u64)
    requires
        attempt * 11 <= usize::MAX,
    ensures
        r == mix_seed(nanos, pid, attempt),
{
    let base = (nanos as u64).wrapping_add((pid as u64) << 16u64).wrapping_add(
        (attempt as u64).wrapping_mul(0x9e37_79b9_7f4a_7c15u64),
    );
    let r = ((attempt * 11) % 63) as u32;
    rotate_left(base, r)
}

pub open spec fn digit_char(d: nat) -> char {
    ((d + 48) as u8) as char
}

/// The decimal digits of `n`, most significant first.
pub open spec fn decimal(n: nat) -> Seq<char>
    decreases n,
{
    if n < 10 {
        seq![digit_char(n)]
    } else {
        decimal(n / 10).push(digit_char(n % 10))
    }
}

/// The decimal digits of `n`, most significant first.
pub fn decimal_digits(n: u64) -> (r: Vec<char>)
    ensures
        r@ == decimal(n as nat),
{
    let mut acc: Vec<char> = Vec::new();
    let mut m: u64 = n;
    assert(decimal(n as nat) + acc@ =~= decimal(n as nat));
    loop
        invariant_except_break
            decimal(n as nat) == decimal(m as nat) + acc@,
        ensures
            decimal(n as nat) == acc@,
        decreases m,
    {
        let d = (m % 10) as u8;
        let c = (d + 48) as char;
        let ghost old_acc = acc@;
        acc.insert(0, c);
        assert(acc@ =~= seq![c] + old_acc);
        if m < 10 {
            assert(decimal(m as nat) == seq![digit_char(m as nat)]);
            assert(decimal(n as nat) =~= acc@);
            break;
        } else {
            assert(decimal(m as nat) == decimal((m / 10) as nat).push(digit_char((m % 10) as nat)));
            assert(decimal(m as nat) + old_acc =~= decimal((m / 10) as nat) + acc@);
            m = m / 10;
        }
    }
    acc
}

/// The first `n` items of `s`, or all of them when there are fewer.
pub open spec fn first_n<A>(s: Seq<A>, n: nat) -> Seq<A> {
    if s.len() <= n {
        s
    } else {
        s.take(n as int)
    }
}

/// The items as numbered lines `"1. a\n2. b"`.
pub open spec fn numbered_lines(items: Seq<Seq<char>>) -> Seq<char>
    decreases items.len(),
{
    if items.len() == 0 {
        Seq::empty()
    } else {
        let line = decimal(items.len()) + ". "@ + items.last();
        if items.len() == 1 {
            line
        } else {
            numbered_lines(items.drop_last()) + "\n"@ + line
        }
    }
}

/// The items as numbered lines, or `"无"` when there is none.
pub open spec fn numbered_text(items: Seq<Seq<char>>) -> Seq<char> {
    if items.len() == 0 {
        "无"@
    } else {
        numbered_lines(items)
    }
}

/// The items as numbered lines, or `"无"` when there is none.
pub fn numbered_block(items: &Vec<String>) -> (r: String)
    ensures
        r@ == numbered_text(texts(items@)),
{
    let ghost iv = texts(items@);
    if items.len() == 0 {
        return String::from_str("无");
    }
    let mut out = String::new();
    let mut i: usize = 0;
    while i < items.len()
        invariant
            i <= items.len(),
            iv == texts(items@),
            out@ == numbered_lines(iv.take(i as int)),
        decreases items.len() - i,
    {
        let ghost pre = iv.take(i as int);
        let ghost post = iv.take(i + 1);
        assert(post.drop_last() =~= pre);
        assert(post.last() == items@[i as int]@);
        if i > 0 {
            out.append("\n");
        }
        let digits = decimal_digits((i + 1) as u64);
        let num = string_of(&digits);
        out.append(num.as_str());
        out.append(". ");
        out.append(items[i].as_str());
        assert(post.len() == i + 1);
        assert(out@ =~= numbered_lines(post));
        i = i + 1;
    }
    assert(iv.take(items.len() as int) =~= iv);
    out
}

/// The guidance for each style; unknown styles read as the commute style.
pub open spec fn style_note_text(style: Seq<char>) -> Seq<char> {
    if style == "night"@ {
        "深夜自嘲。更安静、更私人，像房间里没关掉的一盏小灯；可以有一点疲惫和清醒。"@
    } else if style == "work"@ {
        "上班静音。围绕会议、消息、表格、协作、体面和消耗；不要职场口号。"@
    } else if style == "tender"@ {
        "关系微刺痛。写人与人之间的轻微错位、没说出口的话、礼貌里的距离；不要爱情宣言。"@
    } else if style == "weekend"@ {
        "周末松弛。写慢下来后的空白、家务、散步、旧物和小小的逃离；不要治愈鸡汤。"@
    } else {
        "通勤冷幽默。围绕路上、等待、拥挤、手机、电梯和城市小故障；冷一点，但不要刻薄。"@
    }
}

/// The guidance for a style.
pub fn style_note(style: &str) -> (r: &'static str)
    ensures
        r@ == style_note_text(style@),
{
    if same_text(style, "night") {
        "深夜自嘲。更安静、更私人，像房间里没关掉的一盏小灯；可以有一点疲惫和清醒。"
    } else if same_text(style, "work") {
        "上班静音。围绕会议、消息、表格、协作、体面和消耗；不要职场口号。"
    } else if same_text(style, "tender") {
        "关系微刺痛。写人与人之间的轻微错位、没说出口的话、礼貌里的距离；不要爱情宣言。"
    } else if same_text(style, "weekend") {
        "周末松弛。写慢下来后的空白、家务、散步、旧物和小小的逃离；不要治愈鸡汤。"
    } else {
        "通勤冷幽默。围绕路上、等待、拥挤、手机、电梯和城市小故障；冷一点，但不要刻薄。"
    }
}

/// The guidance for each sharpness; unknown values read as the quiet one.
pub open spec fn sharpness_note_text(sharpness: Seq<char>) -> Seq<char> {
    if sharpness == "soft"@ {
        "更柔和，更像把情绪放低；不要安慰腔。"@
    } else if sharpness == "sharp"@ {
        "更锋利，更有微妙刺痛；不要刻薄和冒犯。"@
    } else {
        "克制、留白，像低声说出一个准确观察。"@
    }
}

/// The guidance for a sharpness.
pub fn sharpness_note(sharpness: &str) -> (r: &'static str)
    ensures
        r@ == sharpness_note_text(sharpness@),
{
    if same_text(sharpness, "soft") {
        "更柔和，更像把情绪放低；不要安慰腔。"
    } else if same_text(sharpness, "sharp") {
        "更锋利，更有微妙刺痛；不要刻薄和冒犯。"
    } else {
        "克制、留白，像低声说出一个准确观察。"
    }
}

/// What the prompt says of the user's own note: its first 80 characters as a hint,
/// or, when it is empty, an instruction not to invent one.
pub open spec fn personal_note_text(note: Seq<char>) -> Seq<char> {
    if note.len() == 0 {
        "无。不要臆造用户身份，可以从任何真实、普通、微小的日常切口取材。"@
    } else {
        first_n(note, 80) + "。这是用户自己的生活关键词，只当气味和方向，不要逐字堆砌。"@
    }
}

fn personal_note_line(note: &str) -> (r: String)
    ensures
        r@ == personal_note_text(note@),
{
    let chars = chars_of(note);
    if chars.len() == 0 {
        return String::from_str("无。不要臆造用户身份，可以从任何真实、普通、微小的日常切口取材。");
    }
    let mut kept: Vec<char> = Vec::new();
    let mut i: usize = 0;
    while i < chars.len() && i < 80
        invariant
            i <= chars.len(),
            i <= 80,
            kept@ == chars@.take(i as int),
        decreases chars.len() - i,
    {
        kept.push(chars[i]);
        assert(chars@.take(i + 1) =~= chars@.take(i as int).push(chars@[i as int]));
        i = i + 1;
    }
    assert(kept@ =~= first_n(note@, 80));
    let mut r = string_of(&kept);
    r.append("。这是用户自己的生活关键词，只当气味和方向，不要逐字堆砌。");
    r
}

/// The prompt of one attempt.
pub open spec fn spec_build_prompt(
    recent: Seq<Seq<char>>,
    failures: Seq<Seq<char>>,
    seed: u64,
    style: Seq<char>,
    sharpness: Seq<char>,
    personal_note: Seq<char>,
) -> Seq<char> {
    "你在为一个常驻桌面的微型产品 Sotto 写内容。它每次只显示一句话。\n这句话应该像用户在日常某个具体瞬间突然看见的观察，不是人生建议，也不是名人名言。\n\n可借用的起点，不是命题：\n- 起点："@
        + starting_points()[pick_index(starting_points().len(), seed, 0x9e37_79b9_7f4a_7c15u64)]
        + "\n- 观察角度："@ + angles()[pick_index(angles().len(), seed, 0xc2b2_ae3d_27d4_eb4fu64)]
        + "\n- 情绪温度："@ + tones()[pick_index(tones().len(), seed, 0x1656_67b1_9e37_79f9u64)]
        + "\n- 语言质地："@ + textures()[pick_index(textures().len(), seed, 0x85eb_ca6b_27d4_eb2fu64)]
        + "\n- 风格包："@ + style_note_text(style) + "\n- 语气强度："@ + sharpness_note_text(sharpness)
        + "\n- 私人偏好："@ + personal_note_text(personal_note) + "\n- 随机种子："@ + decimal((seed % 100_000) as nat)
        + "\n\n输出要求：\n1. 只写一句简体中文，24~56 字，单行\n2. 上面的起点只用于打破惯性；如果你想到更准确的切口，可以完全不用它\n3. 不要为了满足所有素材而显得工整，宁可自由、偏一点、像突然捕捉到的念头\n4. 最好带一个具体物件、动作、声音或空间细节，但不要写成完整故事\n5. 可以微妙、冷幽默、轻微刺痛，也可以只是安静准确；不要鸡汤、励志、劝告、解释\n6. 少用“人生、成长、成熟、努力、热爱、世界、命运”等大词，除非它们非常必要\n7. 避免“越是...越是...”“不是...而是...”“所谓...就是...”“真正的...”这类常见格言句式\n8. 不要标题、引号、编号、前言、备注；直接输出句子本身\n\n最近已经出现过的内容，必须避开相同意象和句式：\n"@ + numbered_text(first_n(recent, 12))
        + "\n\n刚才被判定太像或太俗的候选，也必须避开：\n"@ + numbered_text(first_n(failures.reverse(), 6))
}

/// The prompt of one attempt: a moment, angle, tone and texture picked by `seed`,
/// the style and sharpness guidance, the user's note, the last digits of the seed,
/// the first twelve recent sentences and the last six rejected candidates (latest
/// first).
pub fn build_prompt(
    recent: &[String],
    failures: &[String],
    seed: u64,
    style: &str,
    sharpness: &str,
    personal_note: &str,
) -> (r: String)
    ensures
        r@ == spec_build_prompt(
            texts(recent@),
            texts(failures@),
            seed,
            style@,
            sharpness@,
            personal_note@,
        ),
{
    let ghost rv = texts(recent@);
    let ghost fv = texts(failures@);
    let points = starting_points_list();
    let angle_list = angles_list();
    let tone_list = tones_list();
    let texture_list = textures_list();
    let starting_point = pick(&points, seed, 0x9e37_79b9_7f4a_7c15u64);
    let angle = pick(&angle_list, seed, 0xc2b2_ae3d_27d4_eb4fu64);
    let tone = pick(&tone_list, seed, 0x1656_67b1_9e37_79f9u64);
    let texture = pick(&texture_list, seed, 0x85eb_ca6b_27d4_eb2fu64);
    let note = personal_note_line(personal_note);
    let mut recent_items: Vec<String> = Vec::new();
    let mut i: usize = 0;
    while i < recent.len() && i < 12
        invariant
            i <= recent.len(),
            i <= 12,
            rv == texts(recent@),
            texts(recent_items@) == rv.take(i as int),
        decreases recent.len() - i,
    {
        let item = recent[i].clone();
        let ghost before = recent_items@;
        recent_items.push(item);
        proof {
            lemma_texts_push(before, item);
        }
        assert(item@ == rv[i as int]);
        assert(texts(recent_items@) =~= rv.take(i + 1));
        i = i + 1;
    }
    assert(rv.take(i as int) =~= first_n(rv, 12));
    let mut failure_items: Vec<String> = Vec::new();
    let mut j: usize = 0;
    while j < failures.len() && j < 6
        invariant
            j <= failures.len(),
            j <= 6,
            fv == texts(failures@),
            texts(failure_items@) == fv.reverse().take(j as int),
        decreases failures.len() - j,
    {
        let item = failures[failures.len() - 1 - j].clone();
        let ghost before = failure_items@;
        failure_items.push(item);
        proof {
            lemma_texts_push(before, item);
        }
        assert(item@ == fv.reverse()[j as int]);
        assert(texts(failure_items@) =~= fv.reverse().take(j + 1));
        j = j + 1;
    }
    assert(fv.reverse().take(j as int) =~= first_n(fv.reverse(), 6));
    let recent_block = numbered_block(&recent_items);
    let failure_block = numbered_block(&failure_items);
    let digits = decimal_digits(seed % 100_000);
    let seed_text = string_of(&digits);
    let mut p = String::from_str("你在为一个常驻桌面的微型产品 Sotto 写内容。它每次只显示一句话。\n这句话应该像用户在日常某个具体瞬间突然看见的观察，不是人生建议，也不是名人名言。\n\n可借用的起点，不是命题：\n- 起点：");
    p.append(starting_point);
    p.append("\n- 观察角度：");
    p.append(angle);
    p.append("\n- 情绪温度：");
    p.append(tone);
    p.append("\n- 语言质地：");
    p.append(texture);
    p.append("\n- 风格包：");
    p.append(style_note(style));
    p.append("\n- 语气强度：");
    p.append(sharpness_note(sharpness));
    p.append("\n- 私人偏好：");
    p.append(note.as_str());
    p.append("\n- 随机种子：");
    p.append(seed_text.as_str());
    p.append("\n\n输出要求：\n1. 只写一句简体中文，24~56 字，单行\n2. 上面的起点只用于打破惯性；如果你想到更准确的切口，可以完全不用它\n3. 不要为了满足所有素材而显得工整，宁可自由、偏一点、像突然捕捉到的念头\n4. 最好带一个具体物件、动作、声音或空间细节，但不要写成完整故事\n5. 可以微妙、冷幽默、轻微刺痛，也可以只是安静准确；不要鸡汤、励志、劝告、解释\n6. 少用“人生、成长、成熟、努力、热爱、世界、命运”等大词，除非它们非常必要\n7. 避免“越是...越是...”“不是...而是...”“所谓...就是...”“真正的...”这类常见格言句式\n8. 不要标题、引号、编号、前言、备注；直接输出句子本身\n\n最近已经出现过的内容，必须避开相同意象和句式：\n");
    p.append(recent_block.as_str());
    p.append("\n\n刚才被判定太像或太俗的候选，也必须避开：\n");
    p.append(failure_block.as_str());
    p
}

} // verus!
