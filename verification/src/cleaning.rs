use vstd::prelude::*;

use crate::text::{
    lemma_split_on_len, split_on,
    chars_of, collapse_whitespace, collapse_ws, starts_with, starts_with_chars, starts_with_str,
    string_of, trim, trim_chars, trim_in, CharClass,
};

verus! {

/// `s` with every `"\r\n"` pair, read left to right, replaced by `'\n'`.
pub open spec fn replace_crlf(s: Seq<char>) -> Seq<char>
    decreases s.len(),
{
    if s.len() == 0 {
        Seq::empty()
    } else if s.len() >= 2 && s[0] == '\r' && s[1] == '\n' {
        seq!['\n'] + replace_crlf(s.skip(2))
    } else {
        seq![s[0]] + replace_crlf(s.drop_first())
    }
}

pub open spec fn cr_to_lf(c: char) -> char {
    if c == '\r' {
        '\n'
    } else {
        c
    }
}

/// `s` with every remaining `'\r'` replaced by `'\n'`.
pub open spec fn replace_cr(s: Seq<char>) -> Seq<char> {
    s.map_values(|c: char| cr_to_lf(c))
}

/// The pieces of `s` between its `'\n'` characters (one more than the number of
/// `'\n'` in `s`).
pub open spec fn split_lines(s: Seq<char>) -> Seq<Seq<char>> {
    split_on(s, '\n')
}

pub open spec fn ascii_lower(c: char) -> char {
    if 'A' <= c && c <= 'Z' {
        ((c as u32) + 32) as char
    } else {
        c
    }
}

/// A line that reads like a preamble ("Sure, ...", "好的……") rather than the
/// sentence itself.
pub open spec fn is_meta_line(line: Seq<char>) -> bool {
    let lower = line.map_values(|c: char| ascii_lower(c));
    ||| starts_with(lower, "here"@)
    ||| starts_with(lower, "sure"@)
    ||| starts_with(line, "好的"@)
    ||| starts_with(line, "可以"@)
    ||| starts_with(line, "这句"@)
    ||| starts_with(line, "输出"@)
    ||| starts_with(line, "答案"@)
}

/// The last line, trimmed, that is neither empty nor a preamble.
pub open spec fn last_kept_line(lines: Seq<Seq<char>>) -> Option<Seq<char>>
    decreases lines.len(),
{
    if lines.len() == 0 {
        None
    } else {
        let t = trim(lines.last());
        if t.len() > 0 && !is_meta_line(t) {
            Some(t)
        } else {
            last_kept_line(lines.drop_last())
        }
    }
}

/// The list markers and labels that are stripped from the front of a reply, in the
/// order in which they are tried.
pub open spec fn noise_prefixes() -> Seq<Seq<char>> {
    seq![
        "- "@,
        "* "@,
        "1. "@,
        "1、"@,
        "输出："@,
        "输出:"@,
        "答案："@,
        "答案:"@,
        "句子："@,
        "句子:"@,
        "短句："@,
        "短句:"@,
    ]
}

/// `t` after trying the prefixes from index `k` on: each prefix that `t` starts with
/// at its turn is removed, and the rest trimmed.
pub open spec fn strip_noise_from(t: Seq<char>, k: nat) -> Seq<char>
    decreases noise_prefixes().len() - k,
{
    if k >= noise_prefixes().len() {
        t
    } else {
        let p = noise_prefixes()[k as int];
        let next = if starts_with(t, p) {
            trim(t.skip(p.len() as int))
        } else {
            t
        };
        strip_noise_from(next, k + 1)
    }
}

/// The line trimmed, with its list markers and labels removed.
pub open spec fn spec_strip_prefix_noise(line: Seq<char>) -> Seq<char> {
    strip_noise_from(trim(line), 0)
}

/// The sentence that a raw reply holds: newlines normalized, the last line that is
/// neither empty nor a preamble (or the whole trimmed reply when there is none),
/// without list markers, labels and surrounding quotes, its white space collapsed
/// to single spaces. Empty when the reply is blank.
pub open spec fn spec_clean(raw: Seq<char>) -> Seq<char> {
    let trimmed = trim(replace_cr(replace_crlf(raw)));
    if trimmed.len() == 0 {
        Seq::empty()
    } else {
        let line = match last_kept_line(split_lines(trimmed)) {
            Some(l) => l,
            None => trimmed,
        };
        collapse_ws(trim_in(trim(spec_strip_prefix_noise(line)), CharClass::Quote))
    }
}

fn normalize_newlines(v: &Vec<char>) -> (r: Vec<char>)
    ensures
        r@ == replace_cr(replace_crlf(v@)),
{
    let mut out: Vec<char> = Vec::new();
    let n = v.len();
    let mut i: usize = 0;
    assert(v@.skip(0) =~= v@);
    while i < n
        invariant
            n == v.len(),
            i <= n,
            out@ + replace_crlf(v@.skip(i as int)) == replace_crlf(v@),
        decreases n - i,
    {
        let ghost rest = v@.skip(i as int);
        if v[i] == '\r' && i + 1 < n && v[i + 1] == '\n' {
            assert(rest.skip(2) =~= v@.skip(i + 2));
            out.push('\n');
            assert(out@ + replace_crlf(v@.skip(i + 2)) =~= out@.drop_last() + replace_crlf(rest));
            i = i + 2;
        } else {
            assert(rest.drop_first() =~= v@.skip(i + 1));
            out.push(v[i]);
            assert(out@ + replace_crlf(v@.skip(i + 1)) =~= out@.drop_last() + replace_crlf(rest));
            i = i + 1;
        }
    }
    assert(v@.skip(n as int) =~= Seq::<char>::empty());
    assert(out@ =~= replace_crlf(v@));
    let mut r: Vec<char> = Vec::new();
    let mut j: usize = 0;
    while j < out.len()
        invariant
            j <= out.len(),
            r@ == replace_cr(out@.take(j as int)),
        decreases out.len() - j,
    {
        let c = if out[j] == '\r' {
            '\n'
        } else {
            out[j]
        };
        r.push(c);
        assert(replace_cr(out@.take(j + 1)) =~= replace_cr(out@.take(j as int)).push(c));
        j = j + 1;
    }
    assert(out@.take(out.len() as int) =~= out@);
    r
}

fn ascii_lower_char(c: char) -> (r: char)
    ensures
        r == ascii_lower(c),
{
    if 'A' <= c && c <= 'Z' {
        let code = (c as u8) + 32;
        code as char
    } else {
        c
    }
}

/// Whether a line reads like a preamble rather than the sentence itself.
pub fn looks_like_meta(line: &Vec<char>) -> (r: bool)
    ensures
        r == is_meta_line(line@),
{
    let mut lower: Vec<char> = Vec::new();
    let mut i: usize = 0;
    while i < line.len()
        invariant
            i <= line.len(),
            lower@ == line@.take(i as int).map_values(|c: char| ascii_lower(c)),
        decreases line.len() - i,
    {
        lower.push(ascii_lower_char(line[i]));
        assert(line@.take(i + 1).map_values(|c: char| ascii_lower(c)) =~= line@.take(
            i as int,
        ).map_values(|c: char| ascii_lower(c)).push(ascii_lower(line@[i as int])));
        i = i + 1;
    }
    assert(line@.take(line.len() as int) =~= line@);
    starts_with_str(&lower, "here") || starts_with_str(&lower, "sure") || starts_with_str(
        line,
        "好的",
    ) || starts_with_str(line, "可以") || starts_with_str(line, "这句") || starts_with_str(
        line,
        "输出",
    ) || starts_with_str(line, "答案")
}

fn noise_prefix_list() -> (r: Vec<&'static str>)
    ensures
        r@.len() == noise_prefixes().len(),
        forall|i: int| 0 <= i < r@.len() ==> #[trigger] r@[i]@ == noise_prefixes()[i],
{
    let r = vec![
        "- ",
        "* ",
        "1. ",
        "1、",
        "输出：",
        "输出:",
        "答案：",
        "答案:",
        "句子：",
        "句子:",
        "短句：",
        "短句:",
    ];
    r
}

fn drop_chars(v: &Vec<char>, k: usize) -> (r: Vec<char>)
    requires
        k <= v.len(),
    ensures
        r@ == v@.skip(k as int),
{
    let mut r: Vec<char> = Vec::new();
    let mut i: usize = k;
    while i < v.len()
        invariant
            k <= i <= v.len(),
            r@ == v@.subrange(k as int, i as int),
        decreases v.len() - i,
    {
        r.push(v[i]);
        assert(v@.subrange(k as int, i + 1) =~= v@.subrange(k as int, i as int).push(v@[i as int]));
        i = i + 1;
    }
    assert(v@.subrange(k as int, v.len() as int) =~= v@.skip(k as int));
    r
}

/// The line trimmed, with its list markers and labels removed.
pub fn strip_prefix_noise(line: &Vec<char>) -> (r: Vec<char>)
    ensures
        r@ == spec_strip_prefix_noise(line@),
{
    let mut text = trim_chars(line, CharClass::Whitespace);
    let prefixes = noise_prefix_list();
    let mut k: usize = 0;
    while k < prefixes.len()
        invariant
            k <= prefixes@.len(),
            prefixes@.len() == noise_prefixes().len(),
            forall|i: int| 0 <= i < prefixes@.len() ==> #[trigger] prefixes@[i]@ == noise_prefixes()[i],
            strip_noise_from(text@, k as nat) == spec_strip_prefix_noise(line@),
        decreases prefixes.len() - k,
    {
        let p = chars_of(prefixes[k]);
        assert(p@ == noise_prefixes()[k as int]);
        if starts_with_chars(&text, &p) {
            let rest = drop_chars(&text, p.len());
            text = trim_chars(&rest, CharClass::Whitespace);
        }
        k = k + 1;
    }
    text
}

/// The sentence that a raw reply holds, or an empty string when it holds none.
pub fn clean(raw: String) -> (r: String)
    ensures
        r@ == spec_clean(raw@),
{
    let chars = chars_of(raw.as_str());
    let normalized = normalize_newlines(&chars);
    let trimmed = trim_chars(&normalized, CharClass::Whitespace);
    if trimmed.len() == 0 {
        return String::new();
    }
    let mut best: Option<Vec<char>> = None;
    let mut cur: Vec<char> = Vec::new();
    let ghost mut done: Seq<Seq<char>> = Seq::empty();
    let mut i: usize = 0;
    while i < trimmed.len()
        invariant
            i <= trimmed.len(),
            split_lines(trimmed@.take(i as int)) == done.push(cur@),
            match best {
                Some(b) => last_kept_line(done) == Some(b@),
                None => last_kept_line(done) is None,
            },
        decreases trimmed.len() - i,
    {
        let c = trimmed[i];
        let ghost pre = trimmed@.take(i as int);
        let ghost post = trimmed@.take(i + 1);
        assert(post.drop_last() =~= pre);
        if c == '\n' {
            let t = trim_chars(&cur, CharClass::Whitespace);
            let keep = t.len() > 0 && !looks_like_meta(&t);
            proof {
                assert(done.push(cur@).drop_last() =~= done);
            }
            if keep {
                best = Some(t);
            }
            proof {
                done = done.push(cur@);
            }
            cur = Vec::new();
            assert(split_lines(post) =~= done.push(cur@));
        } else {
            proof {
                lemma_split_on_len(pre, '\n');
            }
            cur.push(c);
            assert(split_lines(post) =~= done.push(cur@));
        }
        i = i + 1;
    }
    assert(trimmed@.take(trimmed.len() as int) =~= trimmed@);
    let t = trim_chars(&cur, CharClass::Whitespace);
    let keep = t.len() > 0 && !looks_like_meta(&t);
    assert(done.push(cur@).drop_last() =~= done);
    let line = if keep {
        t
    } else {
        match best {
            Some(b) => b,
            None => trimmed,
        }
    };
    let stripped = strip_prefix_noise(&line);
    let s2 = trim_chars(&stripped, CharClass::Whitespace);
    let s3 = trim_chars(&s2, CharClass::Quote);
    let out = collapse_whitespace(&s3);
    string_of(&out)
}

} // verus!

verus! {

/// Normalizing the newlines of a sequence without `'\r'` changes nothing.
pub proof fn lemma_newlines_unchanged(s: Seq<char>)
    requires
        forall|i: int| 0 <= i < s.len() ==> s[i] != '\r',
    ensures
        replace_crlf(s) == s,
        replace_cr(s) == s,
    decreases s.len(),
{
    if s.len() > 0 {
        lemma_newlines_unchanged(s.drop_first());
        assert(seq![s[0]] + s.drop_first() =~= s);
    }
    assert(replace_cr(s) =~= s);
}

} // verus!
