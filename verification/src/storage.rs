use vstd::prelude::*;

use crate::prompt::first_n;
use crate::text::{chars_of, same_chars, same_text, string_of, trim, trim_chars, CharClass};

verus! {

/// One generated sentence with when, by which tool, and for which style and slot it
/// was made.
#[derive(Clone, Debug)]
pub struct DailyEntry {
    pub date: String,
    pub text: String,
    pub source: String,
    pub generated_at: String,
    pub style: String,
    pub slot: String,
}

/// The slot that entries without one take.
pub fn default_slot() -> (r: String)
    ensures
        r@ == "daily"@,
{
    String::from_str("daily")
}

/// The texts of a list of entries.
pub open spec fn entry_texts(entries: Seq<DailyEntry>) -> Seq<Seq<char>> {
    entries.map_values(|e: DailyEntry| e.text@)
}

/// The stored entry still answers for the given date, slot and style.
pub open spec fn entry_is_current(e: DailyEntry, date: Seq<char>, slot: Seq<char>, style: Seq<char>) -> bool {
    e.date@ == date && e.slot@ == slot && e.style@ == style
}

/// The stored entry when it was made on `date` for `slot` and `style`, else `None`.
pub fn current_entry(entry: Option<DailyEntry>, date: &str, slot: &str, style: &str) -> (r: Option<
    DailyEntry,
>)
    ensures
        r == (match entry {
            Some(e) => if entry_is_current(e, date@, slot@, style@) {
                Some(e)
            } else {
                None
            },
            None => None,
        }),
{
    match entry {
        Some(e) => {
            if same_text(e.date.as_str(), date) && same_text(e.slot.as_str(), slot) && same_text(
                e.style.as_str(),
                style,
            ) {
                Some(e)
            } else {
                None
            }
        },
        None => None,
    }
}

/// `texts` with the trimmed `text` added at the end, unless it is empty or already
/// there.
pub open spec fn spec_push_unique(texts: Seq<Seq<char>>, text: Seq<char>) -> Seq<Seq<char>> {
    let t = trim(text);
    if t.len() == 0 || texts.contains(t) {
        texts
    } else {
        texts.push(t)
    }
}

/// Adds the trimmed `text` to `texts` unless it is empty or already there. The
/// texts themselves are the set of those seen: vstd specifies `HashSet` only for key
/// types that have its hash-table key model, and `String` has none.
pub fn push_unique_text(texts: &mut Vec<String>, text: String)
    ensures
        crate::text::texts(final(texts)@) == spec_push_unique(crate::text::texts(old(texts)@), text@),
{
    let ghost tv = crate::text::texts(texts@);
    let chars = chars_of(text.as_str());
    let normalized = trim_chars(&chars, CharClass::Whitespace);
    if normalized.len() == 0 {
        return;
    }
    let mut i: usize = 0;
    while i < texts.len()
        invariant
            i <= texts.len(),
            tv == crate::text::texts(texts@),
            normalized@ == trim(text@),
            forall|j: int| 0 <= j < i ==> tv[j] != normalized@,
        decreases texts.len() - i,
    {
        let other = chars_of(texts[i].as_str());
        if same_chars(&other, &normalized) {
            assert(tv[i as int] == normalized@);
            assert(tv.contains(normalized@));
            return;
        }
        i = i + 1;
    }
    let s = string_of(&normalized);
    let ghost before = texts@;
    texts.push(s);
    proof {
        crate::text::lemma_texts_push(before, s);
    }
}

/// Texts gathered from `items` in order into `acc`, each added unless empty or
/// already there, until at least `limit` are held.
pub open spec fn collect_recent(acc: Seq<Seq<char>>, items: Seq<Seq<char>>, limit: nat) -> Seq<
    Seq<char>,
>
    decreases items.len(),
{
    if items.len() == 0 {
        acc
    } else {
        let a = spec_push_unique(acc, items[0]);
        if a.len() >= limit {
            a
        } else {
            collect_recent(a, items.drop_first(), limit)
        }
    }
}

/// The recent texts: the stored entry's first, then the history's from the latest
/// back, trimmed, without empty ones or repeats, until at least `limit` are held.
pub open spec fn spec_recent_texts(stored: Option<Seq<char>>, history: Seq<Seq<char>>, limit: nat) -> Seq<
    Seq<char>,
> {
    let start = match stored {
        Some(t) => spec_push_unique(Seq::empty(), t),
        None => Seq::empty(),
    };
    collect_recent(start, history.reverse(), limit)
}

/// The texts to steer a new sentence away from: the stored entry's first, then the
/// history's from the latest back, trimmed, without empty ones or repeats; the
/// history is read until at least `limit` are held.
pub fn recent_texts(stored: Option<DailyEntry>, history: Vec<DailyEntry>, limit: usize) -> (r: Vec<
    String,
>)
    ensures
        crate::text::texts(r@) == spec_recent_texts(
            match stored {
                Some(e) => Some(e.text@),
                None => None,
            },
            entry_texts(history@),
            limit as nat,
        ),
{
    let ghost hv = entry_texts(history@);
    let mut texts: Vec<String> = Vec::new();
    assert(crate::text::texts(texts@) =~= Seq::<Seq<char>>::empty());
    let ghost stored_text = if stored is Some {
        Some(stored->0.text@)
    } else {
        None
    };
    match &stored {
        Some(e) => {
            push_unique_text(&mut texts, e.text.clone());
        },
        None => {},
    }
    let ghost start = crate::text::texts(texts@);
    let n = history.len();
    let mut k: usize = 0;
    assert(hv.reverse().skip(0) =~= hv.reverse());
    while k < n
        invariant
            n == history.len(),
            k <= n,
            hv == entry_texts(history@),
            start == match stored_text {
                Some(t) => spec_push_unique(Seq::empty(), t),
                None => Seq::empty(),
            },
            stored_text == match stored {
                Some(e) => Some(e.text@),
                None => None,
            },
            collect_recent(crate::text::texts(texts@), hv.reverse().skip(k as int), limit as nat)
                == collect_recent(start, hv.reverse(), limit as nat),
        decreases n - k,
    {
        let ghost rest = hv.reverse().skip(k as int);
        let ghost before = crate::text::texts(texts@);
        assert(rest[0] == history@[n - 1 - k].text@);
        assert(rest.drop_first() =~= hv.reverse().skip(k + 1));
        let text = history[n - 1 - k].text.clone();
        push_unique_text(&mut texts, text);
        assert(collect_recent(before, rest, limit as nat) == if crate::text::texts(texts@).len()
            >= limit {
            crate::text::texts(texts@)
        } else {
            collect_recent(crate::text::texts(texts@), rest.drop_first(), limit as nat)
        });
        if texts.len() >= limit {
            return texts;
        }
        k = k + 1;
    }
    assert(hv.reverse().skip(n as int) =~= Seq::<Seq<char>>::empty());
    texts
}

/// The entries from the latest back, at most `limit` of them.
pub fn latest_first(entries: Vec<DailyEntry>, limit: usize) -> (r: Vec<DailyEntry>)
    ensures
        r@ == first_n(entries@.reverse(), limit as nat),
{
    let mut r: Vec<DailyEntry> = Vec::new();
    let mut entries = entries;
    let ghost orig = entries@;
    while r.len() < limit && entries.len() > 0
        invariant
            entries@ == orig.take(orig.len() - r@.len()),
            r@ == orig.reverse().take(r@.len() as int),
            r@.len() <= orig.len(),
            r@.len() <= limit,
        decreases entries.len(),
    {
        let e = entries.pop().unwrap();
        let ghost before = r@;
        r.push(e);
        assert(r@ =~= orig.reverse().take(r@.len() as int));
        assert(entries@ =~= orig.take(orig.len() - r@.len()));
    }
    assert(r@ =~= first_n(orig.reverse(), limit as nat));
    r
}

/// The entries without those whose trimmed text equals that of `entry`, then
/// `entry`, of which the last `limit` are kept.
pub open spec fn spec_with_entry(entries: Seq<DailyEntry>, entry: DailyEntry, limit: nat) -> Seq<
    DailyEntry,
> {
    let kept = entries.filter(|e: DailyEntry| trim(e.text@) != trim(entry.text@)).push(entry);
    if kept.len() > limit {
        kept.skip(kept.len() - limit)
    } else {
        kept
    }
}

/// The history with `entry` added last, after any older entry with the same
/// trimmed text is dropped, cut to its last `limit` entries.
pub fn with_entry(entries: Vec<DailyEntry>, entry: DailyEntry, limit: usize) -> (r: Vec<DailyEntry>)
    ensures
        r@ == spec_with_entry(entries@, entry, limit as nat),
{
    let ghost pred = |e: DailyEntry| trim(e.text@) != trim(entry.text@);
    let entry_chars = chars_of(entry.text.as_str());
    let entry_trim = trim_chars(&entry_chars, CharClass::Whitespace);
    let mut kept: Vec<DailyEntry> = Vec::new();
    let mut entries = entries;
    let ghost orig = entries@;
    let total = entries.len();
    let mut done: usize = 0;
    while entries.len() > 0
        invariant
            done + entries@.len() == orig.len(),
            orig.len() == total,
            entries@ == orig.skip(done as int),
            kept@ == orig.take(done as int).filter(pred),
            entry_trim@ == trim(entry.text@),
            pred == (|e: DailyEntry| trim(e.text@) != trim(entry.text@)),
        decreases entries.len(),
    {
        let e = entries.remove(0);
        assert(e == orig[done as int]);
        let ghost prefix = orig.take(done as int);
        assert(orig.take(done + 1) =~= prefix.push(e));
        proof {
            prefix.lemma_filter_push(e, pred);
        }
        let c = chars_of(e.text.as_str());
        let t = trim_chars(&c, CharClass::Whitespace);
        if !same_chars(&t, &entry_trim) {
            kept.push(e);
        }
        done = done + 1;
        assert(entries@ =~= orig.skip(done as int));
    }
    assert(orig.take(done as int) =~= orig);
    kept.push(entry);
    if kept.len() > limit {
        let at = kept.len() - limit;
        let tail = kept.split_off(at);
        tail
    } else {
        kept
    }
}

} // verus!
