use std::collections::HashSet;

use vstd::prelude::*;

use crate::text::{
    texts, chars_of, contains_seq, contains_str, is_whitespace, is_ws, same_chars, starts_with,
    starts_with_str, trim, trim_chars, CharClass,
};

verus! {

/// How many of the characters of `s` are not white space.
pub open spec fn non_ws_count(s: Seq<char>) -> nat
    decreases s.len(),
{
    if s.len() == 0 {
        0
    } else {
        non_ws_count(s.drop_last()) + if is_ws(s.last()) {
            0nat
        } else {
            1nat
        }
    }
}

/// How many times `c` occurs in `s`.
pub open spec fn char_count(s: Seq<char>, c: char) -> nat
    decreases s.len(),
{
    if s.len() == 0 {
        0
    } else {
        char_count(s.drop_last(), c) + if s.last() == c {
            1nat
        } else {
            0nat
        }
    }
}

/// The sentence leans on a stock aphorism pattern.
pub open spec fn is_formulaic(text: Seq<char>) -> bool {
    ||| (contains_seq(text, "越是"@) && char_count(text, '越') >= 2)
    ||| (contains_seq(text, "不是"@) && contains_seq(text, "而是"@))
    ||| contains_seq(text, "真正的"@)
    ||| starts_with(text, "所谓"@)
    ||| contains_seq(text, "终将"@)
    ||| contains_seq(text, "总会"@)
    ||| contains_seq(text, "你要"@)
    ||| contains_seq(text, "不要害怕"@)
}

/// The abstract words that a sentence should not pile up.
pub open spec fn big_words() -> Seq<Seq<char>> {
    seq![
        "人生"@,
        "成长"@,
        "成熟"@,
        "努力"@,
        "热爱"@,
        "命运"@,
        "世界"@,
        "内心"@,
        "灵魂"@,
        "梦想"@,
    ]
}

/// How many of the first `k` abstract words occur in `text`.
pub open spec fn big_word_hits(text: Seq<char>, k: int) -> nat
    decreases k,
{
    if k <= 0 {
        0
    } else {
        big_word_hits(text, k - 1) + if contains_seq(text, big_words()[k - 1]) {
            1nat
        } else {
            0nat
        }
    }
}

/// At least two of the abstract words occur in `text`.
pub open spec fn has_big_words(text: Seq<char>) -> bool {
    big_word_hits(text, big_words().len() as int) >= 2
}

/// Characters that count when two sentences are compared: not white space, not
/// ASCII punctuation, and none of the listed CJK and ASCII marks.
pub open spec fn is_meaningful(c: char) -> bool {
    &&& !is_ws(c)
    &&& !is_ascii_punct(c)
    &&& !"，。！？；：、,.!?;:（）()[]【】《》“”\"'"@.contains(c)
}

pub open spec fn is_ascii_punct(c: char) -> bool {
    ||| ('!' <= c && c <= '/')
    ||| (':' <= c && c <= '@')
    ||| ('[' <= c && c <= '`')
    ||| ('{' <= c && c <= '~')
}

/// The code points of the meaningful characters of `s`.
pub open spec fn meaningful_set(s: Seq<char>) -> Set<u32>
    decreases s.len(),
{
    if s.len() == 0 {
        Set::empty()
    } else {
        let r = meaningful_set(s.drop_last());
        if is_meaningful(s.last()) {
            r.insert(s.last() as u32)
        } else {
            r
        }
    }
}

pub proof fn lemma_meaningful_set_finite(s: Seq<char>)
    ensures
        meaningful_set(s).finite(),
    decreases s.len(),
{
    if s.len() > 0 {
        lemma_meaningful_set_finite(s.drop_last());
    }
}

/// Two sentences share at least 72% of the meaningful characters of the one with
/// fewer, when that one has at least ten.
pub open spec fn spec_too_similar(a: Seq<char>, b: Seq<char>) -> bool {
    let sa = meaningful_set(a);
    let sb = meaningful_set(b);
    let min_len = if sa.len() <= sb.len() {
        sa.len()
    } else {
        sb.len()
    };
    min_len >= 10 && sa.intersect(sb).len() * 100 >= min_len * 72
}

/// How many of the recent sentences are compared with a candidate.
pub open spec fn history_compare() -> int {
    30
}

/// What is wrong with `text` when compared with the first `k` recent sentences.
pub open spec fn recent_issue(text: Seq<char>, recent: Seq<Seq<char>>, k: int) -> Option<
    Seq<char>,
>
    decreases k,
{
    if k <= 0 {
        None
    } else {
        match recent_issue(text, recent, k - 1) {
            Some(r) => Some(r),
            None => {
                let old = recent[k - 1];
                if trim(old) == trim(text) {
                    Some("和近期内容完全重复"@)
                } else if spec_too_similar(old, text) {
                    Some("和近期内容过于相似"@)
                } else {
                    None
                }
            },
        }
    }
}

pub proof fn lemma_recent_issue_stays(text: Seq<char>, recent: Seq<Seq<char>>, a: int, b: int)
    requires
        a <= b,
        recent_issue(text, recent, a) is Some,
    ensures
        recent_issue(text, recent, b) == recent_issue(text, recent, a),
    decreases b - a,
{
    if a < b {
        lemma_recent_issue_stays(text, recent, a, b - 1);
    }
}

/// Why a candidate sentence is rejected, or `None` when it is accepted.
pub open spec fn spec_quality_issue(text: Seq<char>, recent: Seq<Seq<char>>) -> Option<Seq<char>> {
    let count = non_ws_count(text);
    if count < 16 {
        Some("过短"@)
    } else if count > 86 {
        Some("过长"@)
    } else if is_formulaic(text) {
        Some("句式太像常见格言"@)
    } else if has_big_words(text) {
        Some("抽象大词太多"@)
    } else {
        let k = if recent.len() < history_compare() {
            recent.len() as int
        } else {
            history_compare()
        };
        recent_issue(text, recent, k)
    }
}

fn count_non_ws(v: &Vec<char>) -> (r: usize)
    ensures
        r == non_ws_count(v@),
{
    let mut n: usize = 0;
    let mut i: usize = 0;
    while i < v.len()
        invariant
            i <= v.len(),
            n == non_ws_count(v@.take(i as int)),
            n <= i,
        decreases v.len() - i,
    {
        assert(v@.take(i + 1).drop_last() =~= v@.take(i as int));
        if !is_whitespace(v[i]) {
            n = n + 1;
        }
        i = i + 1;
    }
    assert(v@.take(v.len() as int) =~= v@);
    n
}

fn count_char(v: &Vec<char>, c: char) -> (r: usize)
    ensures
        r == char_count(v@, c),
{
    let mut n: usize = 0;
    let mut i: usize = 0;
    while i < v.len()
        invariant
            i <= v.len(),
            n == char_count(v@.take(i as int), c),
            n <= i,
        decreases v.len() - i,
    {
        assert(v@.take(i + 1).drop_last() =~= v@.take(i as int));
        if v[i] == c {
            n = n + 1;
        }
        i = i + 1;
    }
    assert(v@.take(v.len() as int) =~= v@);
    n
}

/// Whether the sentence leans on a stock aphorism pattern.
pub fn looks_formulaic(text: &Vec<char>) -> (r: bool)
    ensures
        r == is_formulaic(text@),
{
    (contains_str(text, "越是") && count_char(text, '越') >= 2) || (contains_str(text, "不是")
        && contains_str(text, "而是")) || contains_str(text, "真正的") || starts_with_str(
        text,
        "所谓",
    ) || contains_str(text, "终将") || contains_str(text, "总会") || contains_str(text, "你要")
        || contains_str(text, "不要害怕")
}

fn big_word_list() -> (r: Vec<&'static str>)
    ensures
        r@.len() == big_words().len(),
        forall|i: int| 0 <= i < r@.len() ==> #[trigger] r@[i]@ == big_words()[i],
{
    let r = vec!["人生", "成长", "成熟", "努力", "热爱", "命运", "世界", "内心", "灵魂", "梦想"];
    r
}

/// Whether at least two of the abstract words occur in the sentence.
pub fn contains_big_words(text: &Vec<char>) -> (r: bool)
    ensures
        r == has_big_words(text@),
{
    let words = big_word_list();
    let mut hits: usize = 0;
    let mut k: usize = 0;
    while k < words.len()
        invariant
            k <= words@.len(),
            words@.len() == big_words().len(),
            forall|i: int| 0 <= i < words@.len() ==> #[trigger] words@[i]@ == big_words()[i],
            hits == big_word_hits(text@, k as int),
            hits <= k,
        decreases words.len() - k,
    {
        assert(words@[k as int]@ == big_words()[k as int]);
        if contains_str(text, words[k]) {
            hits = hits + 1;
        }
        k = k + 1;
    }
    hits >= 2
}

fn is_ascii_punctuation(c: char) -> (r: bool)
    ensures
        r == is_ascii_punct(c),
{
    ('!' <= c && c <= '/') || (':' <= c && c <= '@') || ('[' <= c && c <= '`') || ('{' <= c && c
        <= '~')
}

fn is_meaningful_char(c: char, marks: &Vec<char>) -> (r: bool)
    requires
        marks@ == "，。！？；：、,.!?;:（）()[]【】《》“”\"'"@,
    ensures
        r == is_meaningful(c),
{
    if is_whitespace(c) || is_ascii_punctuation(c) {
        return false;
    }
    let mut i: usize = 0;
    while i < marks.len()
        invariant
            i <= marks.len(),
            marks@ == "，。！？；：、,.!?;:（）()[]【】《》“”\"'"@,
            forall|j: int| 0 <= j < i ==> marks@[j] != c,
        decreases marks.len() - i,
    {
        if marks[i] == c {
            assert(marks@[i as int] == c);
            assert(marks@.contains(c));
            return false;
        }
        i = i + 1;
    }
    true
}

/// The code points of the meaningful characters of `s`.
fn meaningful_chars(s: &Vec<char>) -> (r: HashSet<u32>)
    ensures
        r@ == meaningful_set(s@),
{
    broadcast use vstd::std_specs::hash::group_hash_axioms;

    let marks = chars_of("，。！？；：、,.!?;:（）()[]【】《》“”\"'");
    let mut r: HashSet<u32> = HashSet::new();
    let mut i: usize = 0;
    while i < s.len()
        invariant
            i <= s.len(),
            marks@ == "，。！？；：、,.!?;:（）()[]【】《》“”\"'"@,
            r@ == meaningful_set(s@.take(i as int)),
        decreases s.len() - i,
    {
        let c = s[i];
        assert(s@.take(i + 1).drop_last() =~= s@.take(i as int));
        if is_meaningful_char(c, &marks) {
            r.insert(c as u32);
        }
        i = i + 1;
    }
    assert(s@.take(s.len() as int) =~= s@);
    r
}

/// Whether two sentences share too many meaningful characters.
pub fn too_similar(a: &Vec<char>, b: &Vec<char>) -> (r: bool)
    ensures
        r == spec_too_similar(a@, b@),
{
    broadcast use vstd::std_specs::hash::group_hash_axioms;

    let a_chars = meaningful_chars(a);
    let b_chars = meaningful_chars(b);
    proof {
        lemma_meaningful_set_finite(a@);
        lemma_meaningful_set_finite(b@);
    }
    let min_len = if a_chars.len() <= b_chars.len() {
        a_chars.len()
    } else {
        b_chars.len()
    };
    if min_len < 10 {
        return false;
    }
    let ghost sb = meaningful_set(b@);
    let marks = chars_of("，。！？；：、,.!?;:（）()[]【】《》“”\"'");
    let mut seen: HashSet<u32> = HashSet::new();
    let mut common: usize = 0;
    let mut i: usize = 0;
    assert(seen@.intersect(sb) =~= Set::<u32>::empty());
    while i < a.len()
        invariant
            i <= a.len(),
            marks@ == "，。！？；：、,.!?;:（）()[]【】《》“”\"'"@,
            b_chars@ == sb,
            sb.finite(),
            seen@ == meaningful_set(a@.take(i as int)),
            seen@.finite(),
            common == seen@.intersect(sb).len(),
            common <= i,
        decreases a.len() - i,
    {
        let c = a[i];
        let k = c as u32;
        assert(a@.take(i + 1).drop_last() =~= a@.take(i as int));
        if is_meaningful_char(c, &marks) && !seen.contains(&k) {
            let ghost before = seen@;
            seen.insert(k);
            if b_chars.contains(&k) {
                assert(seen@.intersect(sb) =~= before.intersect(sb).insert(k));
                common = common + 1;
            } else {
                assert(seen@.intersect(sb) =~= before.intersect(sb));
            }
        } else if is_meaningful_char(c, &marks) {
            assert(seen@.insert(k) =~= seen@);
        }
        i = i + 1;
    }
    assert(a@.take(a.len() as int) =~= a@);
    (common as u128) * 100 >= (min_len as u128) * 72
}

fn take_count(recent: &[String]) -> (k: usize)
    ensures
        k == (if recent@.len() < history_compare() {
            recent@.len() as int
        } else {
            history_compare()
        }),
{
    if recent.len() < 30 {
        recent.len()
    } else {
        30
    }
}

/// Why a candidate sentence is rejected (too short, too long, formulaic, too
/// abstract, a repeat of or too close to one of the first thirty recent
/// sentences), or `None` when it is accepted.
pub fn quality_issue(text: &str, recent: &[String]) -> (r: Option<String>)
    ensures
        r matches Some(s) ==> spec_quality_issue(text@, texts(recent@)) == Some(
            s@,
        ),
        r is None ==> spec_quality_issue(text@, texts(recent@)) is None,
{
    let ghost rv = texts(recent@);
    let t = chars_of(text);
    let count = count_non_ws(&t);
    if count < 16 {
        return Some(String::from_str("过短"));
    }
    if count > 86 {
        return Some(String::from_str("过长"));
    }
    if looks_formulaic(&t) {
        return Some(String::from_str("句式太像常见格言"));
    }
    if contains_big_words(&t) {
        return Some(String::from_str("抽象大词太多"));
    }
    let t_trim = trim_chars(&t, CharClass::Whitespace);
    let k = take_count(recent);
    let mut i: usize = 0;
    while i < k
        invariant
            i <= k <= recent@.len(),
            rv == texts(recent@),
            t@ == text@,
            t_trim@ == trim(text@),
            recent_issue(text@, rv, i as int) is None,
            spec_quality_issue(text@, rv) == recent_issue(text@, rv, k as int),
        decreases k - i,
    {
        let old = chars_of(recent[i].as_str());
        assert(old@ == rv[i as int]);
        let old_trim = trim_chars(&old, CharClass::Whitespace);
        if same_chars(&old_trim, &t_trim) {
            assert(recent_issue(text@, rv, i + 1) == Some("和近期内容完全重复"@));
            proof {
                lemma_recent_issue_stays(text@, rv, i + 1, k as int);
            }
            return Some(String::from_str("和近期内容完全重复"));
        }
        if too_similar(&old, &t) {
            assert(recent_issue(text@, rv, i + 1) == Some("和近期内容过于相似"@));
            proof {
                lemma_recent_issue_stays(text@, rv, i + 1, k as int);
            }
            return Some(String::from_str("和近期内容过于相似"));
        }
        i = i + 1;
    }
    None
}

} // verus!
