use vstd::prelude::*;

use crate::text::{chars_of, lemma_split_on_len, lemma_texts_push, same_chars, split_on, string_of, texts};

verus! {

/// `home` with the relative path `sub` appended, a `/` between them unless `home`
/// is empty or already ends with one.
pub open spec fn join_dir(home: Seq<char>, sub: Seq<char>) -> Seq<char> {
    if home.len() == 0 || home.last() == '/' {
        home + sub
    } else {
        home + "/"@ + sub
    }
}

/// The directories where the command-line models are usually installed, in the
/// order in which they are added: three system directories, then, given a home
/// directory, four under it.
pub open spec fn install_dirs(home: Option<Seq<char>>) -> Seq<Seq<char>> {
    let fixed = seq!["/opt/homebrew/bin"@, "/usr/local/bin"@, "/usr/bin"@];
    match home {
        Some(h) => fixed + seq![
            join_dir(h, ".local/bin"@),
            join_dir(h, ".cargo/bin"@),
            join_dir(h, ".bun/bin"@),
            join_dir(h, "bin"@),
        ],
        None => fixed,
    }
}

/// A path component that names something: not empty and not `.`.
pub open spec fn is_named_part(p: Seq<char>) -> bool {
    p.len() > 0 && !(p.len() == 1 && p[0] == '.')
}

/// The components of `parts` that name something, in order.
pub open spec fn named_parts(parts: Seq<Seq<char>>) -> Seq<Seq<char>>
    decreases parts.len(),
{
    if parts.len() == 0 {
        Seq::empty()
    } else {
        let init = named_parts(parts.drop_last());
        if is_named_part(parts.last()) {
            init.push(parts.last())
        } else {
            init
        }
    }
}

/// What a Unix path is compared by: whether it starts at the root, whether it
/// starts with a `.` component, and its components between `/` separators that
/// are neither empty nor `.`.
#[verifier::ext_equal]
pub struct PathKey {
    pub rooted: bool,
    pub from_current: bool,
    pub parts: Seq<Seq<char>>,
}

pub open spec fn path_key(s: Seq<char>) -> PathKey {
    PathKey {
        rooted: s.len() > 0 && s[0] == '/',
        from_current: s.len() > 0 && s[0] == '.' && (s.len() == 1 || s[1] == '/'),
        parts: named_parts(split_on(s, '/')),
    }
}

/// Two strings name the same path: they have the same components.
pub open spec fn same_path(a: Seq<char>, b: Seq<char>) -> bool {
    path_key(a) == path_key(b)
}

/// Some entry of `paths` names the same path as `p`.
pub open spec fn has_path(paths: Seq<Seq<char>>, p: Seq<char>) -> bool {
    exists|i: int| 0 <= i < paths.len() && same_path(#[trigger] paths[i], p)
}

/// `paths` followed by each of `extra`, in order, whose path is not already there.
pub open spec fn append_missing(paths: Seq<Seq<char>>, extra: Seq<Seq<char>>) -> Seq<Seq<char>>
    decreases extra.len(),
{
    if extra.len() == 0 {
        paths
    } else {
        let next = if has_path(paths, extra[0]) {
            paths
        } else {
            paths.push(extra[0])
        };
        append_missing(next, extra.drop_first())
    }
}

/// The search path with the usual install directories added after it, each only
/// if no entry already names the same path.
pub open spec fn spec_enriched(current: Seq<Seq<char>>, home: Option<Seq<char>>) -> Seq<Seq<char>> {
    append_missing(current, install_dirs(home))
}

pub open spec fn char_vecs(v: Seq<Vec<char>>) -> Seq<Seq<char>> {
    v.map_values(|x: Vec<char>| x@)
}

proof fn lemma_char_vecs_push(v: Seq<Vec<char>>, x: Vec<char>)
    ensures
        char_vecs(v.push(x)) == char_vecs(v).push(x@),
{
    assert(char_vecs(v.push(x)) =~= char_vecs(v).push(x@));
}

fn is_named_part_exec(p: &Vec<char>) -> (r: bool)
    ensures
        r == is_named_part(p@),
{
    p.len() > 0 && !(p.len() == 1 && p[0] == '.')
}

/// The components of a path that name something.
fn named_parts_of(s: &Vec<char>) -> (r: Vec<Vec<char>>)
    ensures
        char_vecs(r@) == named_parts(split_on(s@, '/')),
{
    let mut parts: Vec<Vec<char>> = Vec::new();
    let mut cur: Vec<char> = Vec::new();
    let ghost mut done: Seq<Seq<char>> = Seq::empty();
    let mut i: usize = 0;
    assert(char_vecs(parts@) =~= Seq::<Seq<char>>::empty());
    while i < s.len()
        invariant
            i <= s.len(),
            split_on(s@.take(i as int), '/') == done.push(cur@),
            char_vecs(parts@) == named_parts(done),
        decreases s.len() - i,
    {
        let c = s[i];
        let ghost pre = s@.take(i as int);
        let ghost post = s@.take(i + 1);
        assert(post.drop_last() =~= pre);
        if c == '/' {
            let ghost cv = cur@;
            assert(done.push(cv).drop_last() =~= done);
            if is_named_part_exec(&cur) {
                let ghost before = parts@;
                parts.push(cur);
                proof {
                    lemma_char_vecs_push(before, parts@.last());
                }
            }
            assert(char_vecs(parts@) == named_parts(done.push(cv)));
            proof {
                done = done.push(cv);
            }
            cur = Vec::new();
            assert(split_on(post, '/') =~= done.push(cur@));
        } else {
            proof {
                lemma_split_on_len(pre, '/');
            }
            cur.push(c);
            assert(split_on(post, '/') =~= done.push(cur@));
        }
        i = i + 1;
    }
    assert(s@.take(s.len() as int) =~= s@);
    let ghost cv = cur@;
    assert(done.push(cv).drop_last() =~= done);
    if is_named_part_exec(&cur) {
        let ghost before = parts@;
        parts.push(cur);
        proof {
            lemma_char_vecs_push(before, parts@.last());
        }
    }
    parts
}

/// Whether two strings name the same path.
pub fn same_path_exec(a: &str, b: &str) -> (r: bool)
    ensures
        r == same_path(a@, b@),
{
    let va = chars_of(a);
    let vb = chars_of(b);
    let rooted_a = va.len() > 0 && va[0] == '/';
    let rooted_b = vb.len() > 0 && vb[0] == '/';
    let cur_a = va.len() > 0 && va[0] == '.' && (va.len() == 1 || va[1] == '/');
    let cur_b = vb.len() > 0 && vb[0] == '.' && (vb.len() == 1 || vb[1] == '/');
    if rooted_a != rooted_b || cur_a != cur_b {
        return false;
    }
    let pa = named_parts_of(&va);
    let pb = named_parts_of(&vb);
    if pa.len() != pb.len() {
        assert(char_vecs(pa@).len() != char_vecs(pb@).len());
        return false;
    }
    let mut i: usize = 0;
    while i < pa.len()
        invariant
            i <= pa.len(),
            pa.len() == pb.len(),
            char_vecs(pa@) == path_key(a@).parts,
            char_vecs(pb@) == path_key(b@).parts,
            forall|j: int| 0 <= j < i ==> char_vecs(pa@)[j] == char_vecs(pb@)[j],
        decreases pa.len() - i,
    {
        if !same_chars(&pa[i], &pb[i]) {
            assert(char_vecs(pa@)[i as int] != char_vecs(pb@)[i as int]);
            return false;
        }
        i = i + 1;
    }
    assert(char_vecs(pa@) =~= char_vecs(pb@));
    assert(path_key(a@) =~= path_key(b@));
    true
}

fn join_dir_exec(home: &str, sub: &str) -> (r: String)
    ensures
        r@ == join_dir(home@, sub@),
{
    let h = chars_of(home);
    let mut r = string_of(&h);
    if h.len() > 0 && h[h.len() - 1] != '/' {
        r.append("/");
    }
    r.append(sub);
    r
}

fn has_path_exec(paths: &Vec<String>, item: &str) -> (r: bool)
    ensures
        r == has_path(texts(paths@), item@),
{
    let mut i: usize = 0;
    while i < paths.len()
        invariant
            i <= paths.len(),
            forall|j: int| 0 <= j < i ==> !same_path(texts(paths@)[j], item@),
        decreases paths.len() - i,
    {
        if same_path_exec(paths[i].as_str(), item) {
            assert(same_path(texts(paths@)[i as int], item@));
            return true;
        }
        i = i + 1;
    }
    false
}

fn install_dir_list(home: &Option<String>) -> (r: Vec<String>)
    ensures
        texts(r@) == install_dirs(
            match home {
                Some(h) => Some(h@),
                None => None,
            },
        ),
{
    let mut r: Vec<String> = Vec::new();
    let ghost mut before = r@;
    assert(texts(r@) =~= Seq::<Seq<char>>::empty());
    let a = String::from_str("/opt/homebrew/bin");
    proof { before = r@; lemma_texts_push(before, a); }
    r.push(a);
    let b = String::from_str("/usr/local/bin");
    proof { before = r@; lemma_texts_push(before, b); }
    r.push(b);
    let c = String::from_str("/usr/bin");
    proof { before = r@; lemma_texts_push(before, c); }
    r.push(c);
    match home {
        Some(h) => {
            let d = join_dir_exec(h.as_str(), ".local/bin");
            proof { before = r@; lemma_texts_push(before, d); }
            r.push(d);
            let e = join_dir_exec(h.as_str(), ".cargo/bin");
            proof { before = r@; lemma_texts_push(before, e); }
            r.push(e);
            let f = join_dir_exec(h.as_str(), ".bun/bin");
            proof { before = r@; lemma_texts_push(before, f); }
            r.push(f);
            let g = join_dir_exec(h.as_str(), "bin");
            proof { before = r@; lemma_texts_push(before, g); }
            r.push(g);
        },
        None => {},
    }
    assert(texts(r@) =~= install_dirs(
        match home {
            Some(h) => Some(h@),
            None => None,
        },
    ));
    r
}

/// The search path with the usual install directories of the command-line models
/// added after it — `/opt/homebrew/bin`, `/usr/local/bin`, `/usr/bin`, then, given
/// a home directory, its `.local/bin`, `.cargo/bin`, `.bun/bin` and `bin` — each
/// only if no entry already names the same path (paths compare by component, so
/// `/usr/bin/` names `/usr/bin`). Entries are kept as they were given.
pub fn enriched_search_path(current: Vec<String>, home: Option<String>) -> (r: Vec<String>)
    ensures
        texts(r@) == spec_enriched(
            texts(current@),
            match home {
                Some(h) => Some(h@),
                None => None,
            },
        ),
{
    let extra = install_dir_list(&home);
    let ghost ev = texts(extra@);
    let mut paths = current;
    let mut k: usize = 0;
    assert(ev.skip(0) =~= ev);
    while k < extra.len()
        invariant
            k <= extra.len(),
            ev == texts(extra@),
            append_missing(texts(paths@), ev.skip(k as int)) == spec_enriched(
                texts(current@),
                match home {
                    Some(h) => Some(h@),
                    None => None,
                },
            ),
        decreases extra.len() - k,
    {
        let ghost rest = ev.skip(k as int);
        assert(rest[0] == extra@[k as int]@);
        assert(rest.drop_first() =~= ev.skip(k + 1));
        if !has_path_exec(&paths, extra[k].as_str()) {
            let item = extra[k].clone();
            let ghost before = paths@;
            paths.push(item);
            proof {
                lemma_texts_push(before, item);
            }
        }
        k = k + 1;
    }
    assert(ev.skip(extra.len() as int) =~= Seq::<Seq<char>>::empty());
    paths
}

} // verus!

verus! {

/// No two entries of `paths` name the same path.
pub open spec fn distinct_paths(paths: Seq<Seq<char>>) -> bool {
    forall|i: int, j: int|
        0 <= i < paths.len() && 0 <= j < paths.len() && i != j ==> !same_path(
            #[trigger] paths[i],
            #[trigger] paths[j],
        )
}

proof fn lemma_append_missing(paths: Seq<Seq<char>>, extra: Seq<Seq<char>>)
    ensures
        append_missing(paths, extra).len() >= paths.len(),
        append_missing(paths, extra).take(paths.len() as int) == paths,
        forall|i: int| 0 <= i < extra.len() ==> has_path(append_missing(paths, extra), #[trigger] extra[i]),
        forall|x: Seq<char>| #[trigger] has_path(paths, x) ==> has_path(append_missing(paths, extra), x),
        distinct_paths(paths) ==> distinct_paths(append_missing(paths, extra)),
    decreases extra.len(),
{
    if extra.len() > 0 {
        let e = extra[0];
        let next = if has_path(paths, e) {
            paths
        } else {
            paths.push(e)
        };
        assert(next.take(paths.len() as int) =~= paths);
        assert(has_path(next, e)) by {
            if !has_path(paths, e) {
                assert(same_path(next[paths.len() as int], e));
            }
        }
        assert forall|x: Seq<char>| #[trigger] has_path(paths, x) implies has_path(next, x) by {
            let j = choose|j: int| 0 <= j < paths.len() && same_path(#[trigger] paths[j], x);
            assert(next[j] == paths[j]);
        }
        if distinct_paths(paths) && !has_path(paths, e) {
            assert forall|i: int, j: int|
                0 <= i < next.len() && 0 <= j < next.len() && i != j implies !same_path(
                #[trigger] next[i],
                #[trigger] next[j],
            ) by {
                if i == paths.len() as int {
                    assert(next[j] == paths[j]);
                    assert(!same_path(paths[j], e));
                } else if j == paths.len() as int {
                    assert(next[i] == paths[i]);
                    assert(!same_path(paths[i], e));
                } else {
                    assert(next[i] == paths[i]);
                    assert(next[j] == paths[j]);
                }
            }
        }
        lemma_append_missing(next, extra.drop_first());
        let r = append_missing(next, extra.drop_first());
        assert(r.take(paths.len() as int) =~= r.take(next.len() as int).take(paths.len() as int));
        assert forall|i: int| 0 <= i < extra.len() implies has_path(r, #[trigger] extra[i]) by {
            if i > 0 {
                assert(extra.drop_first()[i - 1] == extra[i]);
            }
        }
    }
}

/// The enriched search path keeps the current one, as given and in order, at its
/// front; names every install directory; and, when no two current entries name the
/// same path, no two of its entries do.
pub proof fn law_enriched_search_path(current: Seq<Seq<char>>, home: Option<Seq<char>>)
    ensures
        spec_enriched(current, home).take(current.len() as int) == current,
        forall|i: int|
            0 <= i < install_dirs(home).len() ==> has_path(
                spec_enriched(current, home),
                #[trigger] install_dirs(home)[i],
            ),
        distinct_paths(current) ==> distinct_paths(spec_enriched(current, home)),
{
    lemma_append_missing(current, install_dirs(home));
}

} // verus!
