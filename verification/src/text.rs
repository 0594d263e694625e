use vstd::prelude::*;

verus! {

/// Characters with the Unicode `White_Space` property.
pub open spec fn is_ws(c: char) -> bool {
    ||| ('\u{9}' <= c && c <= '\u{d}')
    ||| c == ' '
    ||| c == '\u{85}'
    ||| c == '\u{a0}'
    ||| c == '\u{1680}'
    ||| ('\u{2000}' <= c && c <= '\u{200a}')
    ||| c == '\u{2028}'
    ||| c == '\u{2029}'
    ||| c == '\u{202f}'
    ||| c == '\u{205f}'
    ||| c == '\u{3000}'
}

pub fn is_whitespace(c: char) -> (r: bool)
    ensures
        r == is_ws(c),
{
    ('\u{9}' <= c && c <= '\u{d}') || c == ' ' || c == '\u{85}' || c == '\u{a0}' || c == '\u{1680}'
        || ('\u{2000}' <= c && c <= '\u{200a}') || c == '\u{2028}' || c == '\u{2029}' || c
        == '\u{202f}' || c == '\u{205f}' || c == '\u{3000}'
}

/// The characters of `s`, in order.
pub fn chars_of(s: &str) -> (v: Vec<char>)
    ensures
        v@ == s@,
{
    let mut v: Vec<char> = Vec::new();
    for c in it: s.chars()
        invariant
            v@ == it.seq().take(it.index() as int),
            it.seq() == s@,
    {
        v.push(c);
    }
    v
}

#[verifier::external_body]
fn push_char(s: &mut String, c: char)
    ensures
        final(s)@ == old(s)@.push(c),
{
    s.push(c);
}

/// The string made of the characters of `v`, in order.
pub fn string_of(v: &Vec<char>) -> (s: String)
    ensures
        s@ == v@,
{
    let mut s = String::new();
    for i in 0..v.len()
        invariant
            s@ == v@.take(i as int),
    {
        push_char(&mut s, v[i]);
        assert(v@.take(i + 1) == v@.take(i as int).push(v@[i as int]));
    }
    assert(v@.take(v.len() as int) == v@);
    s
}

} // verus!

verus! {

/// Character classes that the trimming functions remove.
#[derive(Clone, Copy, PartialEq, Eq, Debug)]
pub enum CharClass {
    /// Unicode white space.
    Whitespace,
    /// Quotation marks, backticks and the plain space.
    Quote,
}

pub open spec fn is_quote(c: char) -> bool {
    ||| c == '"'
    ||| c == '\''
    ||| c == '“'
    ||| c == '”'
    ||| c == '「'
    ||| c == '」'
    ||| c == '《'
    ||| c == '》'
    ||| c == '`'
    ||| c == ' '
}

pub open spec fn in_class(k: CharClass, c: char) -> bool {
    match k {
        CharClass::Whitespace => is_ws(c),
        CharClass::Quote => is_quote(c),
    }
}

fn class_has(k: CharClass, c: char) -> (r: bool)
    ensures
        r == in_class(k, c),
{
    match k {
        CharClass::Whitespace => is_whitespace(c),
        CharClass::Quote => c == '"' || c == '\'' || c == '“' || c == '”' || c == '「' || c == '」'
            || c == '《' || c == '》' || c == '`' || c == ' ',
    }
}

/// `s` without its leading characters of class `k`.
pub open spec fn trim_start_in(s: Seq<char>, k: CharClass) -> Seq<char>
    decreases s.len(),
{
    if s.len() > 0 && in_class(k, s[0]) {
        trim_start_in(s.drop_first(), k)
    } else {
        s
    }
}

/// `s` without its trailing characters of class `k`.
pub open spec fn trim_end_in(s: Seq<char>, k: CharClass) -> Seq<char>
    decreases s.len(),
{
    if s.len() > 0 && in_class(k, s.last()) {
        trim_end_in(s.drop_last(), k)
    } else {
        s
    }
}

/// `s` without its leading and trailing characters of class `k`.
pub open spec fn trim_in(s: Seq<char>, k: CharClass) -> Seq<char> {
    trim_end_in(trim_start_in(s, k), k)
}

/// `s` without leading and trailing white space.
pub open spec fn trim(s: Seq<char>) -> Seq<char> {
    trim_in(s, CharClass::Whitespace)
}

pub proof fn lemma_trim_start_skip(s: Seq<char>, k: CharClass, i: int)
    requires
        0 <= i <= s.len(),
        forall|j: int| 0 <= j < i ==> in_class(k, #[trigger] s[j]),
    ensures
        trim_start_in(s, k) == trim_start_in(s.subrange(i, s.len() as int), k),
    decreases i,
{
    if i > 0 {
        assert(s.drop_first().subrange(i - 1, s.drop_first().len() as int) =~= s.subrange(
            i,
            s.len() as int,
        ));
        lemma_trim_start_skip(s.drop_first(), k, i - 1);
    } else {
        assert(s.subrange(0, s.len() as int) =~= s);
    }
}

pub proof fn lemma_trim_end_cut(s: Seq<char>, k: CharClass, j: int)
    requires
        0 <= j <= s.len(),
        forall|m: int| j <= m < s.len() ==> in_class(k, #[trigger] s[m]),
    ensures
        trim_end_in(s, k) == trim_end_in(s.take(j), k),
    decreases s.len() - j,
{
    if j < s.len() {
        assert(s.drop_last().take(j) =~= s.take(j));
        lemma_trim_end_cut(s.drop_last(), k, j);
    } else {
        assert(s.take(j) =~= s);
    }
}

/// `v` without its leading and trailing characters of class `k`.
pub fn trim_chars(v: &Vec<char>, k: CharClass) -> (r: Vec<char>)
    ensures
        r@ == trim_in(v@, k),
{
    let n = v.len();
    let mut i: usize = 0;
    while i < n && class_has(k, v[i])
        invariant
            n == v.len(),
            i <= n,
            forall|j: int| 0 <= j < i ==> in_class(k, #[trigger] v@[j]),
        decreases n - i,
    {
        i = i + 1;
    }
    proof {
        lemma_trim_start_skip(v@, k, i as int);
    }
    let ghost t = v@.subrange(i as int, n as int);
    assert(trim_start_in(t, k) == t);
    let mut j: usize = n;
    while j > i && class_has(k, v[j - 1])
        invariant
            n == v.len(),
            i <= j <= n,
            t == v@.subrange(i as int, n as int),
            forall|m: int| i <= m < n && j <= m ==> in_class(k, #[trigger] v@[m]),
        decreases j,
    {
        j = j - 1;
    }
    proof {
        assert forall|m: int| j - i <= m < t.len() implies in_class(k, #[trigger] t[m]) by {
            assert(t[m] == v@[m + i]);
        }
        lemma_trim_end_cut(t, k, j - i);
        assert(t.take(j - i) =~= v@.subrange(i as int, j as int));
        if j > i {
            assert(v@.subrange(i as int, j as int).last() == v@[j - 1]);
        }
    }
    let mut r: Vec<char> = Vec::new();
    let mut m: usize = i;
    while m < j
        invariant
            i <= m <= j <= n,
            n == v.len(),
            r@ == v@.subrange(i as int, m as int),
        decreases j - m,
    {
        r.push(v[m]);
        assert(v@.subrange(i as int, m + 1) =~= v@.subrange(i as int, m as int).push(v@[m as int]));
        m = m + 1;
    }
    r
}

/// `pat` occurs in `s` starting at index `i`.
pub open spec fn occurs_at(s: Seq<char>, pat: Seq<char>, i: int) -> bool {
    0 <= i && i + pat.len() <= s.len() && s.subrange(i, i + pat.len()) == pat
}

/// `pat` occurs somewhere in `s`.
pub open spec fn contains_seq(s: Seq<char>, pat: Seq<char>) -> bool {
    exists|i: int| occurs_at(s, pat, i)
}

/// `s` begins with `pat`.
pub open spec fn starts_with(s: Seq<char>, pat: Seq<char>) -> bool {
    occurs_at(s, pat, 0)
}

pub fn occurs_at_exec(s: &Vec<char>, pat: &Vec<char>, i: usize) -> (r: bool)
    ensures
        r == occurs_at(s@, pat@, i as int),
{
    if i > s.len() || pat.len() > s.len() - i {
        return false;
    }
    let mut j: usize = 0;
    while j < pat.len()
        invariant
            i + pat.len() <= s.len(),
            j <= pat.len(),
            forall|m: int| 0 <= m < j ==> s@[i + m] == pat@[m],
        decreases pat.len() - j,
    {
        if s[i + j] != pat[j] {
            assert(s@.subrange(i as int, i + pat.len())[j as int] != pat@[j as int]);
            return false;
        }
        j = j + 1;
    }
    assert(s@.subrange(i as int, i + pat.len()) =~= pat@);
    true
}

/// Whether `pat` occurs in `s`.
pub fn contains_chars(s: &Vec<char>, pat: &Vec<char>) -> (r: bool)
    ensures
        r == contains_seq(s@, pat@),
{
    if pat.len() > s.len() {
        return false;
    }
    let last = s.len() - pat.len();
    let mut i: usize = 0;
    while i < last
        invariant
            last == s.len() - pat.len(),
            i <= last,
            forall|j: int| 0 <= j < i ==> !occurs_at(s@, pat@, j),
        decreases last - i,
    {
        if occurs_at_exec(s, pat, i) {
            return true;
        }
        i = i + 1;
    }
    if occurs_at_exec(s, pat, last) {
        return true;
    }
    assert forall|j: int| !occurs_at(s@, pat@, j) by {
        if 0 <= j && j + pat@.len() <= s@.len() && j != last {
            assert(j < i);
        }
    }
    false
}

/// Whether `s` begins with `pat`.
pub fn starts_with_chars(s: &Vec<char>, pat: &Vec<char>) -> (r: bool)
    ensures
        r == starts_with(s@, pat@),
{
    occurs_at_exec(s, pat, 0)
}

/// Whether `s` begins with the characters of `pat`.
pub fn starts_with_str(s: &Vec<char>, pat: &str) -> (r: bool)
    ensures
        r == starts_with(s@, pat@),
{
    let p = chars_of(pat);
    starts_with_chars(s, &p)
}

/// Whether the characters of `pat` occur in `s`.
pub fn contains_str(s: &Vec<char>, pat: &str) -> (r: bool)
    ensures
        r == contains_seq(s@, pat@),
{
    let p = chars_of(pat);
    contains_chars(s, &p)
}

/// Whether two sequences of characters are equal.
pub fn same_chars(a: &Vec<char>, b: &Vec<char>) -> (r: bool)
    ensures
        r == (a@ == b@),
{
    if a.len() != b.len() {
        return false;
    }
    let mut i: usize = 0;
    while i < a.len()
        invariant
            a.len() == b.len(),
            i <= a.len(),
            forall|j: int| 0 <= j < i ==> a@[j] == b@[j],
        decreases a.len() - i,
    {
        if a[i] != b[i] {
            return false;
        }
        i = i + 1;
    }
    assert(a@ =~= b@);
    true
}

/// Whether two strings hold the same characters.
pub fn same_text(a: &str, b: &str) -> (r: bool)
    ensures
        r == (a@ == b@),
{
    let va = chars_of(a);
    let vb = chars_of(b);
    same_chars(&va, &vb)
}

} // verus!

verus! {

/// The maximal runs of non-white-space characters of `s`, in order.
pub open spec fn words(s: Seq<char>) -> Seq<Seq<char>>
    decreases s.len(),
{
    if s.len() == 0 {
        Seq::empty()
    } else {
        let w = words(s.drop_last());
        let c = s.last();
        if is_ws(c) {
            w
        } else if s.len() >= 2 && !is_ws(s[s.len() - 2]) {
            w.update(w.len() - 1, w.last().push(c))
        } else {
            w.push(seq![c])
        }
    }
}

/// The sequences of `ws` joined by single spaces.
pub open spec fn join_spaced(ws: Seq<Seq<char>>) -> Seq<char>
    decreases ws.len(),
{
    if ws.len() == 0 {
        Seq::empty()
    } else if ws.len() == 1 {
        ws[0]
    } else {
        join_spaced(ws.drop_last()) + seq![' '] + ws.last()
    }
}

/// The words of `s` joined by single spaces.
pub open spec fn collapse_ws(s: Seq<char>) -> Seq<char> {
    join_spaced(words(s))
}

pub proof fn lemma_words_nonempty(s: Seq<char>)
    requires
        s.len() > 0,
        !is_ws(s.last()),
    ensures
        words(s).len() > 0,
    decreases s.len(),
{
    if s.len() >= 2 && !is_ws(s[s.len() - 2]) {
        lemma_words_nonempty(s.drop_last());
    }
}

/// The words of `v` joined by single spaces.
pub fn collapse_whitespace(v: &Vec<char>) -> (r: Vec<char>)
    ensures
        r@ == collapse_ws(v@),
{
    let mut out: Vec<char> = Vec::new();
    let mut in_word = false;
    let mut any_word = false;
    let mut i: usize = 0;
    while i < v.len()
        invariant
            i <= v.len(),
            out@ == join_spaced(words(v@.take(i as int))),
            in_word == (i > 0 && !is_ws(v@[i - 1])),
            any_word == (words(v@.take(i as int)).len() > 0),
        decreases v.len() - i,
    {
        let c = v[i];
        let ghost pre = v@.take(i as int);
        let ghost post = v@.take(i + 1);
        let ghost w = words(pre);
        assert(post.drop_last() =~= pre);
        assert(post.last() == c);
        if is_whitespace(c) {
            in_word = false;
        } else if in_word {
            assert(post[post.len() - 2] == v@[i - 1]);
            proof {
                lemma_words_nonempty(pre);
            }
            let ghost w2 = w.update(w.len() - 1, w.last().push(c));
            assert(words(post) == w2);
            out.push(c);
            proof {
                if w.len() == 1 {
                    assert(join_spaced(w2) =~= join_spaced(w).push(c));
                } else {
                    assert(w2.drop_last() =~= w.drop_last());
                    assert(join_spaced(w2) =~= join_spaced(w).push(c));
                }
            }
        } else {
            if i > 0 {
                assert(post[post.len() - 2] == v@[i - 1]);
            }
            let ghost w2 = w.push(seq![c]);
            assert(words(post) == w2);
            assert(w2.drop_last() =~= w);
            if any_word {
                out.push(' ');
            }
            out.push(c);
            assert(join_spaced(w2) =~= out@);
            in_word = true;
            any_word = true;
        }
        i = i + 1;
    }
    assert(v@.take(v.len() as int) =~= v@);
    out
}

} // verus!

verus! {

/// The character sequences of a list of strings.
pub open spec fn texts(v: Seq<String>) -> Seq<Seq<char>> {
    v.map_values(|s: String| s@)
}

pub proof fn lemma_texts_push(v: Seq<String>, x: String)
    ensures
        texts(v.push(x)) == texts(v).push(x@),
{
    assert(texts(v.push(x)) =~= texts(v).push(x@));
}

} // verus!

verus! {

pub proof fn lemma_trim_start_shape(s: Seq<char>, k: CharClass)
    ensures
        trim_start_in(s, k).len() <= s.len(),
        trim_start_in(s, k) == s.skip(s.len() - trim_start_in(s, k).len()),
        trim_start_in(s, k).len() > 0 ==> !in_class(k, trim_start_in(s, k)[0]),
    decreases s.len(),
{
    if s.len() > 0 && in_class(k, s[0]) {
        lemma_trim_start_shape(s.drop_first(), k);
        let t = trim_start_in(s.drop_first(), k);
        assert(s.drop_first().skip(s.drop_first().len() - t.len()) =~= s.skip(s.len() - t.len()));
    } else {
        assert(s.skip(0) =~= s);
    }
}

pub proof fn lemma_trim_end_shape(s: Seq<char>, k: CharClass)
    ensures
        trim_end_in(s, k).len() <= s.len(),
        trim_end_in(s, k) == s.take(trim_end_in(s, k).len() as int),
        trim_end_in(s, k).len() > 0 ==> !in_class(k, trim_end_in(s, k).last()),
    decreases s.len(),
{
    if s.len() > 0 && in_class(k, s.last()) {
        lemma_trim_end_shape(s.drop_last(), k);
        let t = trim_end_in(s.drop_last(), k);
        assert(s.drop_last().take(t.len() as int) =~= s.take(t.len() as int));
    } else {
        assert(s.take(s.len() as int) =~= s);
    }
}

/// The result of trimming neither begins nor ends with a trimmed character.
pub proof fn lemma_trim_ends(s: Seq<char>, k: CharClass)
    ensures
        trim_in(s, k).len() > 0 ==> !in_class(k, trim_in(s, k)[0]) && !in_class(
            k,
            trim_in(s, k).last(),
        ),
{
    lemma_trim_start_shape(s, k);
    let t = trim_start_in(s, k);
    lemma_trim_end_shape(t, k);
    let u = trim_end_in(t, k);
    if u.len() > 0 {
        assert(u[0] == t[0]);
    }
}

/// A sequence that neither begins nor ends with a trimmed character is its own trim.
pub proof fn lemma_trim_fixed(s: Seq<char>, k: CharClass)
    requires
        s.len() > 0 ==> !in_class(k, s[0]) && !in_class(k, s.last()),
    ensures
        trim_in(s, k) == s,
{
}

/// Trimming twice is trimming once.
pub proof fn lemma_trim_idempotent(s: Seq<char>, k: CharClass)
    ensures
        trim_in(trim_in(s, k), k) == trim_in(s, k),
{
    lemma_trim_ends(s, k);
    lemma_trim_fixed(trim_in(s, k), k);
}

} // verus!

verus! {

/// Every white-space character of `t` is a plain space with a non-white-space
/// character on each side (so `t` neither begins nor ends with white space, and
/// holds no runs of it).
pub open spec fn single_spaced(t: Seq<char>) -> bool {
    forall|i: int|
        0 <= i < t.len() && is_ws(#[trigger] t[i]) ==> t[i] == ' ' && 0 < i < t.len() - 1
            && !is_ws(t[i - 1]) && !is_ws(t[i + 1])
}

/// Each sequence is non-empty and holds no white space.
pub open spec fn solid_words(ws: Seq<Seq<char>>) -> bool {
    forall|k: int|
        0 <= k < ws.len() ==> (#[trigger] ws[k]).len() > 0 && forall|j: int|
            0 <= j < ws[k].len() ==> !is_ws(#[trigger] ws[k][j])
}

pub proof fn lemma_words_solid(s: Seq<char>)
    ensures
        solid_words(words(s)),
    decreases s.len(),
{
    if s.len() > 0 {
        lemma_words_solid(s.drop_last());
        let w = words(s.drop_last());
        let c = s.last();
        if !is_ws(c) && s.len() >= 2 && !is_ws(s[s.len() - 2]) {
            lemma_words_nonempty(s.drop_last());
            let w2 = w.update(w.len() - 1, w.last().push(c));
            assert forall|k: int| 0 <= k < w2.len() implies (#[trigger] w2[k]).len() > 0 && forall|j: int|
                0 <= j < w2[k].len() ==> !is_ws(#[trigger] w2[k][j]) by {
                if k == w.len() - 1 {
                    assert forall|j: int| 0 <= j < w2[k].len() implies !is_ws(#[trigger] w2[k][j]) by {
                        if j < w.last().len() {
                            assert(w2[k][j] == w[k][j]);
                        }
                    }
                } else {
                    assert(w2[k] == w[k]);
                }
            }
        } else if !is_ws(c) {
            let w2 = w.push(seq![c]);
            assert forall|k: int| 0 <= k < w2.len() implies (#[trigger] w2[k]).len() > 0 && forall|j: int|
                0 <= j < w2[k].len() ==> !is_ws(#[trigger] w2[k][j]) by {
                if k < w.len() {
                    assert(w2[k] == w[k]);
                }
            }
        }
    }
}

pub proof fn lemma_join_single_spaced(ws: Seq<Seq<char>>)
    requires
        solid_words(ws),
    ensures
        single_spaced(join_spaced(ws)),
        ws.len() > 0 ==> join_spaced(ws).len() > 0 && join_spaced(ws).last() == ws.last().last(),
    decreases ws.len(),
{
    if ws.len() == 1 {
        assert(ws[0].len() > 0);
        assert forall|i: int| 0 <= i < ws[0].len() implies !is_ws(#[trigger] ws[0][i]) by {}
    } else if ws.len() > 1 {
        let init = ws.drop_last();
        assert(solid_words(init)) by {
            assert forall|k: int| 0 <= k < init.len() implies (#[trigger] init[k]).len() > 0 && forall|j: int|
                0 <= j < init[k].len() ==> !is_ws(#[trigger] init[k][j]) by {
                assert(init[k] == ws[k]);
            }
        }
        lemma_join_single_spaced(init);
        let a = join_spaced(init);
        let b = ws.last();
        assert(b.len() > 0);
        let t = join_spaced(ws);
        assert(t == a + seq![' '] + b);
        assert(a.len() > 0);
        assert(!is_ws(a.last())) by {
            assert(a.last() == init.last().last());
            assert(init.last() == ws[ws.len() - 2]);
            assert(!is_ws(ws[ws.len() - 2][ws[ws.len() - 2].len() - 1]));
        }
        assert forall|i: int| 0 <= i < t.len() && is_ws(#[trigger] t[i]) implies t[i] == ' ' && 0 < i
            < t.len() - 1 && !is_ws(t[i - 1]) && !is_ws(t[i + 1]) by {
            if i < a.len() {
                assert(t[i] == a[i]);
                if i + 1 < a.len() {
                    assert(t[i + 1] == a[i + 1]);
                }
                if i > 0 {
                    assert(t[i - 1] == a[i - 1]);
                }
            } else if i == a.len() {
                assert(t[i - 1] == a.last());
                assert(t[i + 1] == b[0]);
            } else {
                assert(t[i] == b[i - a.len() - 1]);
            }
        }
        assert(t.last() == b.last());
    }
}

} // verus!

verus! {

/// The pieces of `s` between its `sep` characters (one more than the number of
/// `sep` in `s`).
pub open spec fn split_on(s: Seq<char>, sep: char) -> Seq<Seq<char>>
    decreases s.len(),
{
    if s.len() == 0 {
        seq![Seq::empty()]
    } else {
        let init = split_on(s.drop_last(), sep);
        if s.last() == sep {
            init.push(Seq::empty())
        } else {
            init.update(init.len() - 1, init.last().push(s.last()))
        }
    }
}

pub proof fn lemma_split_on_len(s: Seq<char>, sep: char)
    ensures
        split_on(s, sep).len() >= 1,
    decreases s.len(),
{
    if s.len() > 0 {
        lemma_split_on_len(s.drop_last(), sep);
    }
}

} // verus!

verus! {

/// Trimming the end of `a + b`, where `b` begins with a character that stays, only
/// trims the end of `b`.
pub proof fn lemma_trim_end_append(a: Seq<char>, b: Seq<char>, k: CharClass)
    requires
        b.len() > 0,
        !in_class(k, b[0]),
    ensures
        trim_end_in(a + b, k) == a + trim_end_in(b, k),
    decreases b.len(),
{
    let ab = a + b;
    assert(ab.last() == b.last());
    if b.len() > 1 && in_class(k, b.last()) {
        assert(ab.drop_last() =~= a + b.drop_last());
        lemma_trim_end_append(a, b.drop_last(), k);
    }
}

/// Trimming the end keeps every position up to a character that stays.
pub proof fn lemma_trim_end_keeps(s: Seq<char>, k: CharClass, j: int)
    requires
        0 <= j < s.len(),
        !in_class(k, s[j]),
    ensures
        trim_end_in(s, k).len() > j,
    decreases s.len(),
{
    if in_class(k, s.last()) {
        lemma_trim_end_keeps(s.drop_last(), k, j);
    }
}

/// A sequence that begins with a character other than white space trims to a
/// prefix of itself that reaches past each such character.
pub proof fn lemma_trim_solid_front(s: Seq<char>, j: int)
    requires
        0 <= j < s.len(),
        !is_ws(s[0]),
        !is_ws(s[j]),
    ensures
        trim(s) == s.take(trim(s).len() as int),
        j < trim(s).len() <= s.len(),
        trim_end_in(s, CharClass::Whitespace) == trim(s),
{
    assert(trim_start_in(s, CharClass::Whitespace) == s);
    lemma_trim_end_shape(s, CharClass::Whitespace);
    lemma_trim_end_keeps(s, CharClass::Whitespace, j);
}

/// A sequence without `sep` is one piece.
pub proof fn lemma_split_on_single(s: Seq<char>, sep: char)
    requires
        forall|i: int| 0 <= i < s.len() ==> s[i] != sep,
    ensures
        split_on(s, sep) == seq![s],
    decreases s.len(),
{
    if s.len() == 0 {
        assert(s =~= Seq::<char>::empty());
    } else {
        lemma_split_on_single(s.drop_last(), sep);
        assert(s.drop_last().push(s.last()) =~= s);
    }
}

/// Splitting `a`, a separator and a `b` without separators gives the pieces of `a`
/// and then `b`.
pub proof fn lemma_split_on_join(a: Seq<char>, b: Seq<char>, sep: char)
    requires
        forall|i: int| 0 <= i < b.len() ==> b[i] != sep,
    ensures
        split_on(a + seq![sep] + b, sep) == split_on(a, sep).push(b),
    decreases b.len(),
{
    let x = a + seq![sep] + b;
    if b.len() == 0 {
        assert(x.drop_last() =~= a);
        assert(b =~= Seq::<char>::empty());
    } else {
        assert(x.drop_last() =~= a + seq![sep] + b.drop_last());
        lemma_split_on_join(a, b.drop_last(), sep);
        assert(b.drop_last().push(b.last()) =~= b);
        assert(split_on(a, sep).push(b.drop_last()).update(split_on(a, sep).len() as int, b) =~= split_on(a, sep).push(b));
    }
}

} // verus!
