use vstd::prelude::*;

use crate::cleaning::{
    ascii_lower, is_meta_line, last_kept_line, lemma_newlines_unchanged, replace_cr, replace_crlf,
    spec_clean, spec_strip_prefix_noise, split_lines,
};
use crate::clock::ClockReading;
use crate::generation::{
    after_reply, awaited_tool, candidate_of, is_awaiting, max_attempts, GenerateError,
    GenerationModel, Stage, StepModel, Tool,
};
use crate::quality::{
    char_count, history_compare, lemma_recent_issue_stays, non_ws_count, recent_issue, spec_quality_issue,
};
use crate::schedule::{first_ahead, latest_started, schedule_slots, slot_start, spec_current_slot, spec_next_daily};
use crate::settings::{
    settings_normalized, AppSettings, spec_normalize_note, spec_normalize_rhythm, spec_normalize_sharpness, spec_normalize_style,
};
use crate::storage::{collect_recent, spec_push_unique, spec_recent_texts, spec_with_entry, DailyEntry};
use crate::text::{
    contains_seq, is_ws, lemma_join_single_spaced, lemma_split_on_join, lemma_split_on_single,
    lemma_trim_end_append, lemma_trim_ends, lemma_trim_fixed, lemma_trim_idempotent,
    lemma_trim_solid_front, lemma_words_solid, single_spaced, starts_with, trim, trim_end_in, trim_in,
    trim_start_in, words, CharClass,
};

verus! {

/// Within an attempt, a reply from the preferred tool that yields no accepted
/// sentence hands the same prompt to the fallback tool.
pub proof fn law_fallback_follows_preferred(m: GenerationModel, reply: Option<Seq<char>>, clock: ClockReading)
    requires
        is_awaiting(m),
        m.stage == Stage::AwaitingPreferred,
        !(after_reply(m, reply, clock).1 is Done),
    ensures
        after_reply(m, reply, clock).1 == StepModel::Ask(Tool::Fallback, m.prompt),
        after_reply(m, reply, clock).0.stage == Stage::AwaitingFallback,
        after_reply(m, reply, clock).0.attempt == m.attempt,
{
}

/// A generation only ever succeeds with a sentence that a tool gave, and that
/// sentence either passes the quality checks or is the last candidate once every
/// attempt is spent.
pub proof fn law_result_is_accepted_or_last(m: GenerationModel, reply: Option<Seq<char>>, clock: ClockReading)
    requires
        is_awaiting(m),
        after_reply(m, reply, clock).1 is Done,
    ensures
        match after_reply(m, reply, clock).1 {
            StepModel::Done(Ok((text, source))) => {
                ||| (candidate_of(reply) == Some(text) && spec_quality_issue(text, m.recent) is None
                    && source == awaited_tool(m.stage))
                ||| (m.stage == Stage::AwaitingFallback && m.attempt + 1 == max_attempts()
                    && after_reply(m, reply, clock).0.last_candidate == Some((text, source)))
            },
            StepModel::Done(Err(e)) => {
                &&& e == GenerateError::NoCliAvailable
                &&& m.stage == Stage::AwaitingFallback
                &&& m.attempt + 1 == max_attempts()
                &&& m.last_candidate is None
                &&& candidate_of(reply) is None
            },
            _ => false,
        },
        after_reply(m, reply, clock).0.stage == Stage::Finished,
{
}

/// Every step keeps the number of attempts within the limit, and a generation that
/// has not finished still awaits a reply.
pub proof fn law_attempts_bounded(m: GenerationModel, reply: Option<Seq<char>>, clock: ClockReading)
    requires
        is_awaiting(m),
    ensures
        after_reply(m, reply, clock).0.attempt <= max_attempts(),
        after_reply(m, reply, clock).0.stage != Stage::Finished ==> is_awaiting(
            after_reply(m, reply, clock).0,
        ),
        after_reply(m, reply, clock).0.stage == Stage::Finished <==> after_reply(m, reply, clock).1 is Done,
{
}

/// How many tool requests a generation has made so far.
pub open spec fn requests_made(m: GenerationModel) -> nat {
    m.attempt * 2 + if m.stage == Stage::AwaitingFallback {
        2nat
    } else if m.stage == Stage::AwaitingPreferred {
        1nat
    } else {
        0nat
    }
}

/// Every reply either ends the generation or leads to exactly one more request, and
/// a generation that awaits a reply has made at most six requests: no generation
/// asks more than twice per attempt over three attempts.
pub proof fn law_requests_bounded(m: GenerationModel, reply: Option<Seq<char>>, clock: ClockReading)
    requires
        is_awaiting(m),
    ensures
        requests_made(m) <= 2 * max_attempts(),
        after_reply(m, reply, clock).1 is Ask ==> requests_made(after_reply(m, reply, clock).0)
            == requests_made(m) + 1,
{
}

/// A candidate whose trimmed text equals one of the first thirty recent sentences,
/// trimmed, is rejected.
pub proof fn law_recent_repeat_rejected(text: Seq<char>, recent: Seq<Seq<char>>, i: int)
    requires
        0 <= i < recent.len(),
        i < history_compare(),
        trim(recent[i]) == trim(text),
    ensures
        spec_quality_issue(text, recent) is Some,
{
    let k = if recent.len() < history_compare() {
        recent.len() as int
    } else {
        history_compare()
    };
    if recent_issue(text, recent, i) is None {
        assert(recent_issue(text, recent, i + 1) is Some);
        lemma_recent_issue_stays(text, recent, i + 1, k);
    } else {
        lemma_recent_issue_stays(text, recent, i, k);
    }
}

/// A cleaned reply neither begins nor ends with white space, and its only white
/// space is single plain spaces between other characters.
pub proof fn law_clean_single_spaced(raw: Seq<char>)
    ensures
        single_spaced(spec_clean(raw)),
{
    let c = spec_clean(raw);
    if c.len() > 0 {
        let trimmed = trim(replace_cr(replace_crlf(raw)));
        let line = match last_kept_line(split_lines(trimmed)) {
            Some(l) => l,
            None => trimmed,
        };
        let x = trim_in(trim(spec_strip_prefix_noise(line)), CharClass::Quote);
        lemma_words_solid(x);
        lemma_join_single_spaced(words(x));
    }
}

/// Texts with no repeats, each trimmed and not empty.
pub open spec fn tidy_texts(ts: Seq<Seq<char>>) -> bool {
    &&& ts.no_duplicates()
    &&& forall|i: int| 0 <= i < ts.len() ==> trim(#[trigger] ts[i]) == ts[i] && ts[i].len() > 0
}

proof fn lemma_push_unique_tidy(ts: Seq<Seq<char>>, text: Seq<char>)
    requires
        tidy_texts(ts),
    ensures
        tidy_texts(spec_push_unique(ts, text)),
{
    let t = trim(text);
    lemma_trim_idempotent(text, CharClass::Whitespace);
    if !(t.len() == 0 || ts.contains(t)) {
        let r = ts.push(t);
        assert forall|i: int, j: int| 0 <= i < r.len() && 0 <= j < r.len() && i != j implies r[i]
            != r[j] by {
            if i == ts.len() as int {
                assert(ts[j] == r[j]);
            }
            if j == ts.len() as int {
                assert(ts[i] == r[i]);
            }
        }
    }
}

proof fn lemma_collect_recent_tidy(acc: Seq<Seq<char>>, items: Seq<Seq<char>>, limit: nat)
    requires
        tidy_texts(acc),
    ensures
        tidy_texts(collect_recent(acc, items, limit)),
    decreases items.len(),
{
    if items.len() > 0 {
        lemma_push_unique_tidy(acc, items[0]);
        lemma_collect_recent_tidy(spec_push_unique(acc, items[0]), items.drop_first(), limit);
    }
}

/// The recent texts hold no repeats, and each is trimmed and not empty.
pub proof fn law_recent_texts_tidy(stored: Option<Seq<char>>, history: Seq<Seq<char>>, limit: nat)
    ensures
        tidy_texts(spec_recent_texts(stored, history, limit)),
{
    let empty = Seq::<Seq<char>>::empty();
    assert(tidy_texts(empty));
    let start = match stored {
        Some(t) => spec_push_unique(empty, t),
        None => empty,
    };
    if let Some(t) = stored {
        lemma_push_unique_tidy(empty, t);
    }
    lemma_collect_recent_tidy(start, history.reverse(), limit);
}

/// After adding an entry to the history: it is the last entry (when anything is
/// kept), no other entry has the same trimmed text, at most `limit` entries remain,
/// and they are in their old order.
pub proof fn law_with_entry(entries: Seq<DailyEntry>, entry: DailyEntry, limit: nat)
    ensures
        spec_with_entry(entries, entry, limit).len() <= limit,
        spec_with_entry(entries, entry, limit).len() <= entries.len() + 1,
        limit > 0 ==> spec_with_entry(entries, entry, limit).last() == entry,
        forall|j: int|
            0 <= j < spec_with_entry(entries, entry, limit).len() - 1 ==> trim(
                (#[trigger] spec_with_entry(entries, entry, limit)[j]).text@,
            ) != trim(entry.text@),
{
    let pred = |e: DailyEntry| trim(e.text@) != trim(entry.text@);
    let f = entries.filter(pred);
    let kept = f.push(entry);
    let r = spec_with_entry(entries, entry, limit);
    entries.lemma_filter_len(pred);
    assert forall|j: int| 0 <= j < r.len() - 1 implies trim((#[trigger] r[j]).text@) != trim(entry.text@) by {
        let off = if kept.len() > limit { kept.len() - limit } else { 0 };
        assert(r[j] == kept[j + off]);
        assert(j + off < f.len());
        entries.lemma_filter_pred(pred, j + off);
    }
}

/// Normalizing settings twice gives what normalizing once gives, provided the kept
/// part of the note does not end in white space.
pub proof fn law_normalize_settings_stable(style: Seq<char>, rhythm: Seq<char>, sharpness: Seq<char>, note: Seq<char>)
    requires
        spec_normalize_note(note).len() > 0 ==> !is_ws(spec_normalize_note(note).last()),
    ensures
        spec_normalize_style(spec_normalize_style(style)) == spec_normalize_style(style),
        spec_normalize_rhythm(spec_normalize_rhythm(rhythm)) == spec_normalize_rhythm(rhythm),
        spec_normalize_sharpness(spec_normalize_sharpness(sharpness)) == spec_normalize_sharpness(sharpness),
        spec_normalize_note(spec_normalize_note(note)) == spec_normalize_note(note),
{
    let t = trim(note);
    let n = spec_normalize_note(note);
    lemma_trim_ends(note, CharClass::Whitespace);
    if n.len() > 0 {
        assert(n[0] == t[0]);
    }
    lemma_trim_fixed(n, CharClass::Whitespace);
}

/// The next daily refresh is later than now and no more than a day ahead.
pub proof fn law_next_daily_ahead(now: ClockReading)
    requires
        now.is_valid(),
    ensures
        ({
            let m = now.minute_of_day();
            m < spec_next_daily(m).days_ahead * 24 * 60 + spec_next_daily(m).hour * 60
                + spec_next_daily(m).minute <= m + 24 * 60
        }),
{
}

/// The next day-part refresh is later than now, and no day part starts in between.
pub proof fn law_next_scheduled_ahead(now: ClockReading)
    requires
        now.is_valid(),
    ensures
        ({
            let m = now.minute_of_day();
            let w = first_ahead(m, 0);
            &&& m < w.days_ahead * 24 * 60 + w.hour * 60 + w.minute
            &&& forall|i: int|
                0 <= i < schedule_slots().len() && m < #[trigger] slot_start(i) ==> w.days_ahead == 0
                    && w.hour * 60 + w.minute <= slot_start(i)
        }),
{
    reveal_with_fuel(first_ahead, 6);
}

/// Minute `m` of the day falls in the day part that started last, and before the
/// first one starts it is still night.
pub proof fn law_current_slot(m: nat, i: int)
    requires
        0 <= i < schedule_slots().len(),
        slot_start(i) <= m,
        i + 1 < schedule_slots().len() ==> m < slot_start(i + 1),
    ensures
        spec_current_slot(m) == schedule_slots()[i].0,
{
    reveal_with_fuel(latest_started, 6);
}

/// Before the first day part starts, the slot is the night.
pub proof fn law_early_morning_is_night(m: nat)
    requires
        m < slot_start(0),
    ensures
        spec_current_slot(m) == "night"@,
{
    reveal_with_fuel(latest_started, 6);
}


/// A candidate of acceptable length that uses a stock aphorism pattern is rejected
/// as formulaic: a "越是" with "越" at least twice, "不是……而是……", "真正的", a leading
/// "所谓", "终将", "总会", "你要" or "不要害怕", each on its own.
pub proof fn law_stock_patterns_rejected(text: Seq<char>, recent: Seq<Seq<char>>)
    requires
        16 <= non_ws_count(text) <= 86,
    ensures
        contains_seq(text, "越是"@) && char_count(text, '越') >= 2 ==> spec_quality_issue(text, recent) == Some("句式太像常见格言"@),
        contains_seq(text, "不是"@) && contains_seq(text, "而是"@) ==> spec_quality_issue(text, recent)
            == Some("句式太像常见格言"@),
        contains_seq(text, "真正的"@) ==> spec_quality_issue(text, recent) == Some("句式太像常见格言"@),
        starts_with(text, "所谓"@) ==> spec_quality_issue(text, recent) == Some("句式太像常见格言"@),
        contains_seq(text, "终将"@) ==> spec_quality_issue(text, recent) == Some("句式太像常见格言"@),
        contains_seq(text, "总会"@) ==> spec_quality_issue(text, recent) == Some("句式太像常见格言"@),
        contains_seq(text, "你要"@) ==> spec_quality_issue(text, recent) == Some("句式太像常见格言"@),
        contains_seq(text, "不要害怕"@) ==> spec_quality_issue(text, recent) == Some(
            "句式太像常见格言"@,
        ),
{
}


/// Normalizing settings keeps a style, rhythm or sharpness exactly when it is one of
/// the known values (commute, night, work, tender, weekend; daily, manual, moments;
/// soft, quiet, sharp), and always gives a known value.
pub proof fn law_normalize_keeps_known(s: AppSettings, r: AppSettings)
    requires
        settings_normalized(s, r),
    ensures
        r.style@ == s.style@ <==> (s.style@ == "commute"@ || s.style@ == "night"@ || s.style@
            == "work"@ || s.style@ == "tender"@ || s.style@ == "weekend"@),
        r.rhythm@ == s.rhythm@ <==> (s.rhythm@ == "daily"@ || s.rhythm@ == "manual"@ || s.rhythm@
            == "moments"@),
        r.sharpness@ == s.sharpness@ <==> (s.sharpness@ == "soft"@ || s.sharpness@ == "quiet"@
            || s.sharpness@ == "sharp"@),
        r.style@ == "commute"@ || r.style@ == "night"@ || r.style@ == "work"@ || r.style@
            == "tender"@ || r.style@ == "weekend"@,
        r.rhythm@ == "daily"@ || r.rhythm@ == "manual"@ || r.rhythm@ == "moments"@,
        r.sharpness@ == "soft"@ || r.sharpness@ == "quiet"@ || r.sharpness@ == "sharp"@,
{
}


/// Adding an entry to a history with room for it drops only the older entries whose
/// trimmed text equals the new one's: every other entry stays, whatever its date,
/// slot or style, and each entry before the new one was already in the history.
pub proof fn law_with_entry_keeps_others(entries: Seq<DailyEntry>, entry: DailyEntry, limit: nat, i: int)
    requires
        entries.len() < limit,
        0 <= i < entries.len(),
        trim(entries[i].text@) != trim(entry.text@),
    ensures
        spec_with_entry(entries, entry, limit).contains(entries[i]),
        spec_with_entry(entries, entry, limit).len() == entries.len() + 1 - entries.filter(
            |e: DailyEntry| trim(e.text@) == trim(entry.text@),
        ).len(),
        forall|j: int|
            0 <= j < spec_with_entry(entries, entry, limit).len() - 1 ==> entries.contains(
                #[trigger] spec_with_entry(entries, entry, limit)[j],
            ),
{
    let differs = |e: DailyEntry| trim(e.text@) != trim(entry.text@);
    let same = |e: DailyEntry| trim(e.text@) == trim(entry.text@);
    let f = entries.filter(differs);
    entries.lemma_filter_len(differs);
    entries.lemma_filter_contains(differs, i);
    let r = spec_with_entry(entries, entry, limit);
    assert(r == f.push(entry));
    assert(r.contains(entries[i])) by {
        let k = choose|k: int| 0 <= k < f.len() && f[k] == entries[i];
        assert(r[k] == entries[i]);
    }
    assert forall|j: int| 0 <= j < r.len() - 1 implies entries.contains(#[trigger] r[j]) by {
        assert(r[j] == f[j]);
        assert(f.contains(f[j]));
        entries.lemma_filter_contains_rev(differs, f[j]);
    }
    lemma_filter_split_len(entries, differs, same);
}

proof fn lemma_filter_split_len(s: Seq<DailyEntry>, p: spec_fn(DailyEntry) -> bool, q: spec_fn(DailyEntry) -> bool)
    requires
        forall|e: DailyEntry| #[trigger] p(e) == !q(e),
    ensures
        s.filter(p).len() + s.filter(q).len() == s.len(),
    decreases s.len(),
{
    reveal(Seq::filter);
    if s.len() > 0 {
        lemma_filter_split_len(s.drop_last(), p, q);
    }
}


/// Every reply that yields a candidate makes it the last candidate, with the tool
/// that gave it, whatever came before; a reply without one leaves the last
/// candidate as it was. So when the final fallback reply of the last attempt yields
/// a rejected candidate, the generation ends with that candidate.
pub proof fn law_last_candidate_is_latest(m: GenerationModel, reply: Option<Seq<char>>, clock: ClockReading)
    requires
        is_awaiting(m),
    ensures
        after_reply(m, reply, clock).0.last_candidate == match candidate_of(reply) {
            Some(t) => Some((t, awaited_tool(m.stage))),
            None => m.last_candidate,
        },
        m.stage == Stage::AwaitingFallback && m.attempt + 1 == max_attempts() && candidate_of(reply)
            is Some ==> after_reply(m, reply, clock).1 == StepModel::Done(
            Ok((candidate_of(reply)->0, Tool::Fallback)),
        ),
{
}


/// No line break, `'\n'` or `'\r'`, occurs in `s`.
pub open spec fn single_line(s: Seq<char>) -> bool {
    forall|i: int| 0 <= i < s.len() ==> s[i] != '\n' && s[i] != '\r'
}

/// `m` opens like a preamble or a comment on the sentence: "这句", "好的", "可以",
/// "输出", "答案", or "here" or "sure" in any mix of case.
pub open spec fn opens_as_preamble(m: Seq<char>) -> bool {
    ||| starts_with(m, "这句"@)
    ||| starts_with(m, "好的"@)
    ||| starts_with(m, "可以"@)
    ||| starts_with(m, "输出"@)
    ||| starts_with(m, "答案"@)
    ||| starts_with(m.map_values(|c: char| ascii_lower(c)), "here"@)
    ||| starts_with(m.map_values(|c: char| ascii_lower(c)), "sure"@)
}

proof fn lemma_prefix_of_prefix(s: Seq<char>, t: Seq<char>, p: Seq<char>)
    requires
        t.len() <= s.len(),
        t == s.take(t.len() as int),
    ensures
        starts_with(t, p) ==> starts_with(s, p),
        starts_with(s, p) && p.len() <= t.len() ==> starts_with(t, p),
{
    if p.len() <= t.len() {
        assert(s.subrange(0, p.len() as int) =~= t.subrange(0, p.len() as int));
    }
}

proof fn lemma_lower_take(s: Seq<char>, n: int)
    requires
        0 <= n <= s.len(),
    ensures
        s.take(n).map_values(|c: char| ascii_lower(c)) == s.map_values(|c: char| ascii_lower(c)).take(n),
{
    assert(s.take(n).map_values(|c: char| ascii_lower(c)) =~= s.map_values(|c: char| ascii_lower(c)).take(n));
}

proof fn lemma_preamble_is_meta(m: Seq<char>)
    requires
        opens_as_preamble(m),
    ensures
        m.len() > 0,
        !is_ws(m[0]),
        trim(m).len() > 0,
        trim(m) == trim_end_in(m, CharClass::Whitespace),
        trim(m) == m.take(trim(m).len() as int),
        is_meta_line(trim(m)),
{
    let lower = m.map_values(|c: char| ascii_lower(c));
    reveal_strlit("这句");
    reveal_strlit("好的");
    reveal_strlit("可以");
    reveal_strlit("输出");
    reveal_strlit("答案");
    reveal_strlit("here");
    reveal_strlit("sure");
    let n: int = if starts_with(lower, "here"@) || starts_with(lower, "sure"@) {
        4
    } else {
        2
    };
    assert(m.len() >= n);
    assert(!is_ws(m[0]) && !is_ws(m[n - 1])) by {
        if n == 4 {
            assert(lower[0] == ascii_lower(m[0]));
            assert(lower[3] == ascii_lower(m[3]));
            assert(lower.subrange(0, 4)[0] == lower[0]);
            assert(lower.subrange(0, 4)[3] == lower[3]);
        } else {
            assert(m.subrange(0, 2)[0] == m[0]);
            assert(m.subrange(0, 2)[1] == m[1]);
        }
    }
    lemma_trim_solid_front(m, n - 1);
    let t = trim(m);
    lemma_lower_take(m, t.len() as int);
    lemma_prefix_of_prefix(m, t, "这句"@);
    lemma_prefix_of_prefix(m, t, "好的"@);
    lemma_prefix_of_prefix(m, t, "可以"@);
    lemma_prefix_of_prefix(m, t, "输出"@);
    lemma_prefix_of_prefix(m, t, "答案"@);
    lemma_prefix_of_prefix(lower, t.map_values(|c: char| ascii_lower(c)), "here"@);
    lemma_prefix_of_prefix(lower, t.map_values(|c: char| ascii_lower(c)), "sure"@);
}

proof fn lemma_plain_not_meta(s: Seq<char>)
    requires
        s.len() > 0,
        !is_ws(s[0]),
        !opens_as_preamble(s),
    ensures
        trim(s).len() > 0,
        !is_meta_line(trim(s)),
{
    lemma_trim_solid_front(s, 0);
    let t = trim(s);
    let lower = s.map_values(|c: char| ascii_lower(c));
    lemma_lower_take(s, t.len() as int);
    lemma_prefix_of_prefix(s, t, "这句"@);
    lemma_prefix_of_prefix(s, t, "好的"@);
    lemma_prefix_of_prefix(s, t, "可以"@);
    lemma_prefix_of_prefix(s, t, "输出"@);
    lemma_prefix_of_prefix(s, t, "答案"@);
    lemma_prefix_of_prefix(lower, t.map_values(|c: char| ascii_lower(c)), "here"@);
    lemma_prefix_of_prefix(lower, t.map_values(|c: char| ascii_lower(c)), "sure"@);
}

/// A reply made of a sentence line and, after it, a line that opens like a preamble
/// or a comment on the sentence ("这句……", "好的……", "可以……", "输出……",
/// "答案……", "Here……", "Sure……") cleans to what the sentence line alone cleans to:
/// the comment is never taken for the sentence.
pub proof fn law_trailing_comment_skipped(s: Seq<char>, m: Seq<char>)
    requires
        single_line(s),
        single_line(m),
        s.len() > 0,
        !is_ws(s[0]),
        !opens_as_preamble(s),
        opens_as_preamble(m),
    ensures
        spec_clean(s + seq!['\n'] + m) == spec_clean(s),
{
    let raw = s + seq!['\n'] + m;
    lemma_preamble_is_meta(m);
    lemma_plain_not_meta(s);
    lemma_newlines_unchanged(raw);
    lemma_newlines_unchanged(s);
    let ts = trim(s);
    let tm = trim(m);
    lemma_trim_solid_front(s, 0);
    lemma_trim_solid_front(m, 0);
    // The whole reply trims to the first line, a newline, and the trimmed comment.
    assert(trim_start_in(raw, CharClass::Whitespace) == raw);
    lemma_trim_end_append(s + seq!['\n'], m, CharClass::Whitespace);
    let trimmed = s + seq!['\n'] + tm;
    assert(trim(raw) == trimmed);
    assert(trimmed.len() > 0);
    // It splits into the two lines, of which the comment is passed over.
    assert forall|i: int| 0 <= i < tm.len() implies tm[i] != '\n' by {
        assert(tm[i] == m[i]);
    }
    lemma_split_on_join(s, tm, '\n');
    lemma_split_on_single(s, '\n');
    let lines = split_lines(trimmed);
    assert(lines =~= seq![s, tm]);
    lemma_trim_idempotent(m, CharClass::Whitespace);
    assert(lines.drop_last() =~= seq![s]);
    assert(last_kept_line(seq![s]) == Some(ts)) by {
        assert(seq![s].last() == s);
    }
    assert(last_kept_line(lines) == Some(ts));
    // The sentence line alone keeps itself.
    assert forall|i: int| 0 <= i < ts.len() implies ts[i] != '\n' by {
        assert(ts[i] == s[i]);
    }
    lemma_split_on_single(ts, '\n');
    lemma_trim_idempotent(s, CharClass::Whitespace);
    assert(split_lines(ts) =~= seq![ts]);
    assert(last_kept_line(seq![ts]) == Some(ts)) by {
        assert(seq![ts].last() == ts);
    }
}

} // verus!
