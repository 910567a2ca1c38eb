//! Finding the project a process belongs to: the nearest folder, going up
//! from where it runs, that holds a project marker (`package.json`,
//! `Cargo.toml`, `pyproject.toml`, `go.mod`, `Gemfile`, `pom.xml`).
use vstd::prelude::*;

use crate::platform::windows::paths::{
    comp_start, parent_in, parent_in_style, prefix_len, trim_seps_end,
};
use crate::text::{chars_of, slice, string_of, trim, trim_vec};

verus! {

/// The files whose presence marks a project's root folder.
pub open spec fn project_markers() -> Seq<Seq<char>> {
    seq![
        "package.json"@,
        "Cargo.toml"@,
        "pyproject.toml"@,
        "go.mod"@,
        "Gemfile"@,
        "pom.xml"@,
    ]
}

/// The names of the project marker files, in the order they are looked for.
pub fn project_markers_list() -> (r: Vec<String>)
    ensures
        r@.map_values(|s: String| s@) == project_markers(),
{
    let r = vec![
        "package.json".to_owned(),
        "Cargo.toml".to_owned(),
        "pyproject.toml".to_owned(),
        "go.mod".to_owned(),
        "Gemfile".to_owned(),
        "pom.xml".to_owned(),
    ];
    assert(r@.map_values(|s: String| s@) =~= project_markers());
    r
}

proof fn lemma_trim_seps_end_le(s: Seq<char>, lo: int, e: int, windows: bool)
    requires
        lo <= e,
    ensures
        lo <= trim_seps_end(s, lo, e, windows) <= e,
    decreases e - lo,
{
    if e > lo && crate::platform::windows::paths::is_sep_in(s[e - 1], windows) {
        lemma_trim_seps_end_le(s, lo, e - 1, windows);
    }
}

proof fn lemma_comp_start_bound(s: Seq<char>, lo: int, e: int, windows: bool)
    requires
        lo <= e,
    ensures
        lo <= comp_start(s, lo, e, windows) <= e,
    decreases e - lo,
{
    if e > lo && !crate::platform::windows::paths::is_sep_in(s[e - 1], windows) {
        lemma_comp_start_bound(s, lo, e - 1, windows);
    }
}

proof fn lemma_comp_start_le(s: Seq<char>, lo: int, e: int, windows: bool)
    requires
        lo < e,
        !crate::platform::windows::paths::is_sep_in(s[e - 1], windows),
    ensures
        lo <= comp_start(s, lo, e, windows) < e,
{
    lemma_comp_start_bound(s, lo, e - 1, windows);
}

proof fn lemma_trim_end_not_sep(s: Seq<char>, lo: int, e: int, windows: bool)
    requires
        lo <= e,
        trim_seps_end(s, lo, e, windows) > lo,
    ensures
        !crate::platform::windows::paths::is_sep_in(
            s[trim_seps_end(s, lo, e, windows) - 1],
            windows,
        ),
    decreases e - lo,
{
    if e > lo && crate::platform::windows::paths::is_sep_in(s[e - 1], windows) {
        lemma_trim_end_not_sep(s, lo, e - 1, windows);
    }
}

/// A parent is always shorter than its child.
pub proof fn lemma_parent_shorter(s: Seq<char>, windows: bool)
    ensures
        parent_in(s, windows) matches Some(t) ==> t.len() < s.len(),
{
    let p = if windows {
        prefix_len(s)
    } else {
        0
    };
    let lo = if s.len() > p && crate::platform::windows::paths::is_sep_in(s[p], windows) {
        p + 1
    } else {
        p
    };
    if lo <= s.len() {
        let e = trim_seps_end(s, lo, s.len() as int, windows);
        lemma_trim_seps_end_le(s, lo, s.len() as int, windows);
        if e > lo {
            lemma_trim_end_not_sep(s, lo, s.len() as int, windows);
            lemma_comp_start_le(s, lo, e, windows);
            let k = comp_start(s, lo, e, windows);
            lemma_trim_seps_end_le(s, lo, k, windows);
        }
    }
}

/// `s`, its parent, its parent's parent, ... up to the last one that has
/// no parent.
pub open spec fn ancestors(s: Seq<char>, windows: bool) -> Seq<Seq<char>>
    decreases s.len(),
{
    match parent_in(s, windows) {
        Some(t) => if t.len() < s.len() {
            seq![s] + ancestors(t, windows)
        } else {
            seq![s]
        },
        None => seq![s],
    }
}

/// The folders searched for a project marker, nearest first: the path
/// itself (its parent when it names a file), then each ancestor. None for
/// a blank path.
pub open spec fn candidates_spec(path: Seq<char>, is_file: bool, windows: bool) -> Seq<Seq<char>> {
    if trim(path).len() == 0 {
        seq![]
    } else {
        let start = if is_file {
            match parent_in(path, windows) {
                Some(p) => p,
                None => path,
            }
        } else {
            path
        };
        ancestors(start, windows)
    }
}

/// The folders searched for a project marker, nearest first. `is_file`
/// tells whether `path` names a file; `windows` selects Windows path rules.
pub fn project_root_candidates(path: &str, is_file: bool, windows: bool) -> (r: Vec<String>)
    ensures
        r@.map_values(|s: String| s@) == candidates_spec(path@, is_file, windows),
{
    let mut r: Vec<String> = Vec::new();
    if trim_vec(&chars_of(path)).len() == 0 {
        assert(r@.map_values(|s: String| s@) =~= Seq::<Seq<char>>::empty());
        return r;
    }
    let mut current: String = if is_file {
        match parent_in_style(path, windows) {
            Some(p) => p,
            None => path.to_owned(),
        }
    } else {
        path.to_owned()
    };
    let ghost start = current@;
    assert(r@.map_values(|s: String| s@) + ancestors(current@, windows) =~= ancestors(start, windows));
    assert(ancestors(start, windows) == candidates_spec(path@, is_file, windows));
    loop
        invariant
            r@.map_values(|s: String| s@) + ancestors(current@, windows) == ancestors(start, windows),
            ancestors(start, windows) == candidates_spec(path@, is_file, windows),
        decreases current@.len(),
    {
        proof {
            lemma_parent_shorter(current@, windows);
        }
        let ghost before = r@;
        let ghost cur = current@;
        r.push(current.clone());
        assert(r@.map_values(|s: String| s@) =~= before.map_values(|s: String| s@).push(cur));
        match parent_in_style(current.as_str(), windows) {
            Some(p) => {
                assert(ancestors(cur, windows) =~= seq![cur] + ancestors(p@, windows));
                assert(r@.map_values(|s: String| s@) + ancestors(p@, windows) =~= before.map_values(
                    |s: String| s@,
                ) + ancestors(cur, windows));
                current = p;
            },
            None => {
                assert(ancestors(cur, windows) =~= seq![cur]);
                assert(r@.map_values(|s: String| s@) =~= before.map_values(|s: String| s@)
                    + ancestors(cur, windows));
                return r;
            },
        }
    }
}

/// The first candidate marked as holding a project marker.
pub open spec fn first_marked(marks: Seq<bool>, n: int) -> Option<int>
    decreases marks.len(),
{
    if marks.len() == 0 {
        None
    } else {
        match first_marked(marks.drop_last(), n) {
            Some(i) => Some(i),
            None => if marks.len() - 1 < n && marks.last() {
                Some(marks.len() - 1)
            } else {
                None
            },
        }
    }
}

/// A path separator of either platform.
pub open spec fn is_any_sep(c: char) -> bool {
    c == '/' || c == '\\'
}

/// `s` without trailing `/` and `\` characters.
pub open spec fn trim_end_seps(s: Seq<char>) -> Seq<char>
    decreases s.len(),
{
    if s.len() > 0 && is_any_sep(s.last()) {
        trim_end_seps(s.drop_last())
    } else {
        s
    }
}

/// The project root of `path`: the nearest candidate folder that holds a
/// marker (`marks[i]` tells whether candidate `i` does), else the path
/// itself without trailing separators; nothing for a blank path.
pub open spec fn project_root_spec(
    path: Seq<char>,
    is_file: bool,
    windows: bool,
    marks: Seq<bool>,
) -> Seq<char> {
    if trim(path).len() == 0 {
        seq![]
    } else {
        let cands = candidates_spec(path, is_file, windows);
        match first_marked(marks, cands.len() as int) {
            Some(i) => cands[i],
            None => trim_end_seps(path),
        }
    }
}

proof fn lemma_first_marked(marks: Seq<bool>, n: int)
    ensures
        first_marked(marks, n) matches Some(i) ==> 0 <= i < marks.len() && i < n && marks[i],
    decreases marks.len(),
{
    if marks.len() > 0 {
        lemma_first_marked(marks.drop_last(), n);
    }
}

/// Infers the project root of a process from the path it runs from:
/// `is_file` tells whether `path` names a file, `windows` selects Windows
/// path rules, and `marks[i]` whether the `i`-th folder of
/// `project_root_candidates` holds a project marker.
pub fn infer_project_root(path: &str, is_file: bool, windows: bool, marks: &Vec<bool>) -> (r:
    String)
    ensures
        r@ == project_root_spec(path@, is_file, windows, marks@),
{
    if trim_vec(&chars_of(path)).len() == 0 {
        return String::new();
    }
    let cands = project_root_candidates(path, is_file, windows);
    let ghost cv = cands@.map_values(|s: String| s@);
    let mut i: usize = 0;
    assert(marks@.take(0) =~= Seq::<bool>::empty());
    while i < marks.len()
        invariant
            i <= marks.len(),
            cv == cands@.map_values(|s: String| s@),
            cv == candidates_spec(path@, is_file, windows),
            trim(path@).len() > 0,
            first_marked(marks@.take(i as int), cands@.len() as int) is None,
        decreases marks.len() - i,
    {
        assert(marks@.take(i + 1).drop_last() == marks@.take(i as int));
        if i < cands.len() && marks[i] {
            assert(first_marked(marks@.take(i + 1), cands@.len() as int) == Some(i as int));
            assert(cv.len() == cands@.len());
            assert(cv[i as int] == cands@[i as int]@);
            proof {
                lemma_first_marked_prefix(marks@, i + 1, cands@.len() as int);
            }
            return cands[i].clone();
        }
        i += 1;
    }
    assert(marks@.take(marks.len() as int) == marks@);
    let v = chars_of(path);
    let mut e = v.len();
    assert(v@.take(v.len() as int) == v@);
    while e > 0 && (v[e - 1] == '/' || v[e - 1] == '\\')
        invariant
            e <= v.len(),
            trim_end_seps(v@.take(e as int)) == trim_end_seps(v@),
        decreases e,
    {
        assert(v@.take(e as int).drop_last() == v@.take(e - 1));
        e -= 1;
    }
    assert(trim_end_seps(v@.take(e as int)) == v@.take(e as int));
    string_of(&slice(&v, 0, e))
}

proof fn lemma_first_marked_prefix(marks: Seq<bool>, k: int, n: int)
    requires
        0 <= k <= marks.len(),
        first_marked(marks.take(k), n) is Some,
    ensures
        first_marked(marks, n) == first_marked(marks.take(k), n),
    decreases marks.len() - k,
{
    if k < marks.len() {
        assert(marks.take(k + 1).drop_last() == marks.take(k));
        lemma_first_marked_prefix(marks, k + 1, n);
    } else {
        assert(marks.take(k) == marks);
    }
}

proof fn lemma_first_marked_is(marks: Seq<bool>, n: int, i: int)
    requires
        0 <= i < marks.len(),
        i < n,
        marks[i],
        forall|j: int| 0 <= j < i ==> !marks[j],
    ensures
        first_marked(marks, n) == Some(i),
    decreases marks.len(),
{
    if marks.len() - 1 > i {
        lemma_first_marked_is(marks.drop_last(), n, i);
    } else {
        lemma_first_marked_none(marks.drop_last(), n);
    }
}

proof fn lemma_first_marked_none(marks: Seq<bool>, n: int)
    requires
        forall|j: int| 0 <= j < marks.len() ==> !marks[j],
    ensures
        first_marked(marks, n) is None,
    decreases marks.len(),
{
    if marks.len() > 0 {
        lemma_first_marked_none(marks.drop_last(), n);
    }
}

/// The project root is the nearest searched folder that holds a marker: if
/// folder `i` of `candidates_spec` holds one and no nearer folder does, the
/// root is folder `i` (so a folder that holds a marker itself is its own
/// root).
pub proof fn law_nearest_marked_folder_is_the_root(
    path: Seq<char>,
    is_file: bool,
    windows: bool,
    marks: Seq<bool>,
    i: int,
)
    requires
        0 <= i < candidates_spec(path, is_file, windows).len(),
        i < marks.len(),
        marks[i],
        forall|j: int| 0 <= j < i ==> !marks[j],
    ensures
        project_root_spec(path, is_file, windows, marks) == candidates_spec(path, is_file, windows)[i],
{
    lemma_first_marked_is(marks, candidates_spec(path, is_file, windows).len() as int, i);
}

/// When no searched folder holds a marker, the root is the path itself
/// without trailing separators.
pub proof fn law_unmarked_path_is_its_own_root(
    path: Seq<char>,
    is_file: bool,
    windows: bool,
    marks: Seq<bool>,
)
    requires
        trim(path).len() > 0,
        forall|j: int|
            0 <= j < marks.len() && j < candidates_spec(path, is_file, windows).len() ==> !marks[j],
    ensures
        project_root_spec(path, is_file, windows, marks) == trim_end_seps(path),
{
    lemma_first_marked(marks, candidates_spec(path, is_file, windows).len() as int);
}

/// The search starts at the path itself, or at its parent folder when the
/// path names a file: when that starting folder holds a marker, it is the
/// project root.
pub proof fn law_marked_start_is_the_root(
    path: Seq<char>,
    is_file: bool,
    windows: bool,
    marks: Seq<bool>,
)
    requires
        trim(path).len() > 0,
        marks.len() > 0,
        marks[0],
    ensures
        project_root_spec(path, is_file, windows, marks) == (if is_file {
            match parent_in(path, windows) {
                Some(q) => q,
                None => path,
            }
        } else {
            path
        }),
{
    let start = if is_file {
        match parent_in(path, windows) {
            Some(q) => q,
            None => path,
        }
    } else {
        path
    };
    assert(candidates_spec(path, is_file, windows)[0] == start);
    law_nearest_marked_folder_is_the_root(path, is_file, windows, marks, 0);
}

} // verus!
