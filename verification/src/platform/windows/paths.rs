//! Windows paths: their components, parents and prefixes, and which of them
//! belong to the operating system.
//!
//! The model follows `std::path` on Windows for drive-letter paths: `\` and
//! `/` both separate components, a leading `X:` is a prefix whose letter is
//! compared without regard to case, a separator right after it is the root,
//! and empty and `.` components are skipped. UNC and verbatim (`\\?\`)
//! prefixes are not recognised: such paths read as rooted relative ones.
//! Parents are cut at the last separator, so there a `.` component counts
//! as a name (`std` would skip it).
use vstd::prelude::*;

use crate::text::{
    ascii_lower, ascii_lower_vec, chars_of, chars_of_string, contains, contains_str, seqs, slice,
    split_all, split_all_vec, string_of, upper_char, upper_char_exec,
};

verus! {


/// An ASCII letter.
pub open spec fn is_ascii_alpha(c: char) -> bool {
    ('a' <= c && c <= 'z') || ('A' <= c && c <= 'Z')
}

/// The path starts with a drive prefix such as `C:`.
pub open spec fn has_drive(s: Seq<char>) -> bool {
    s.len() >= 2 && s[1] == ':' && is_ascii_alpha(s[0])
}

/// The length of the drive prefix: 2, or 0 without one.
pub open spec fn prefix_len(s: Seq<char>) -> int {
    if has_drive(s) {
        2
    } else {
        0
    }
}

/// `s` with every `/` turned into `\`.
pub open spec fn norm_seps(s: Seq<char>) -> Seq<char> {
    s.map_values(|c: char| if c == '/' { '\\' } else { c })
}

/// A component that names something: neither empty nor `.`.
pub open spec fn is_part(c: Seq<char>) -> bool {
    c.len() > 0 && c != "."@
}

/// The components of a Windows path: the drive prefix (letter upper-cased),
/// the root, then the names between separators.
pub open spec fn win_components(s: Seq<char>) -> Seq<Seq<char>> {
    let p = prefix_len(s);
    let head = if p == 2 {
        seq![seq![upper_char(s[0]), ':']]
    } else {
        Seq::<Seq<char>>::empty()
    };
    let body = norm_seps(s.skip(p));
    let root = if body.len() > 0 && body[0] == '\\' {
        seq!["\\"@]
    } else {
        Seq::<Seq<char>>::empty()
    };
    head + root + split_all(body, "\\"@).filter(|c: Seq<char>| is_part(c))
}

/// `prefix` names an ancestor of `path` (or `path` itself), component by
/// component.
pub open spec fn win_starts_with(path: Seq<char>, prefix: Seq<char>) -> bool {
    let a = win_components(path);
    let b = win_components(prefix);
    b.len() <= a.len() && a.take(b.len() as int) == b
}

/// A separator: `/`, and on Windows also `\\`.
pub open spec fn is_sep_in(c: char, windows: bool) -> bool {
    c == '/' || (windows && c == '\\')
}

/// The end of `s[lo..e]` once trailing separators are dropped.
pub open spec fn trim_seps_end(s: Seq<char>, lo: int, e: int, windows: bool) -> int
    decreases e - lo,
{
    if e <= lo {
        lo
    } else if is_sep_in(s[e - 1], windows) {
        trim_seps_end(s, lo, e - 1, windows)
    } else {
        e
    }
}

/// Where the last component of `s[lo..e]` starts.
pub open spec fn comp_start(s: Seq<char>, lo: int, e: int, windows: bool) -> int
    decreases e - lo,
{
    if e <= lo {
        lo
    } else if is_sep_in(s[e - 1], windows) {
        e
    } else {
        comp_start(s, lo, e - 1, windows)
    }
}

/// The parent of a path as text (`Path::parent`, on Windows when `windows`
/// holds, else on Unix): the path without its last component and the
/// separators before it (a root stays). `None` for an empty path and for a
/// bare prefix or root.
pub open spec fn parent_in(s: Seq<char>, windows: bool) -> Option<Seq<char>> {
    let p = if windows {
        prefix_len(s)
    } else {
        0
    };
    let lo = if s.len() > p && is_sep_in(s[p], windows) {
        p + 1
    } else {
        p
    };
    let e = trim_seps_end(s, lo, s.len() as int, windows);
    if e == lo {
        None
    } else {
        Some(s.take(trim_seps_end(s, lo, comp_start(s, lo, e, windows), windows)))
    }
}

/// The parent of a Windows path as text.
pub open spec fn windows_parent(s: Seq<char>) -> Option<Seq<char>> {
    parent_in(s, true)
}

fn is_sep_exec(c: char, windows: bool) -> (b: bool)
    ensures
        b == is_sep_in(c, windows),
{
    c == '/' || (windows && c == '\\')
}

fn prefix_len_exec(v: &Vec<char>) -> (p: usize)
    ensures
        p == prefix_len(v@),
{
    if v.len() >= 2 && v[1] == ':' && (('a' <= v[0] && v[0] <= 'z') || ('A' <= v[0] && v[0]
        <= 'Z')) {
        2
    } else {
        0
    }
}

fn trim_seps_end_exec(v: &Vec<char>, lo: usize, e: usize, windows: bool) -> (r: usize)
    requires
        lo <= e <= v.len(),
    ensures
        r == trim_seps_end(v@, lo as int, e as int, windows),
        lo <= r <= e,
{
    let mut j = e;
    while j > lo && is_sep_exec(v[j - 1], windows)
        invariant
            lo <= j <= e <= v.len(),
            trim_seps_end(v@, lo as int, j as int, windows) == trim_seps_end(
                v@,
                lo as int,
                e as int,
                windows,
            ),
        decreases j,
    {
        j -= 1;
    }
    j
}

fn comp_start_exec(v: &Vec<char>, lo: usize, e: usize, windows: bool) -> (r: usize)
    requires
        lo <= e <= v.len(),
    ensures
        r == comp_start(v@, lo as int, e as int, windows),
        lo <= r <= e,
{
    let mut j = e;
    while j > lo && !is_sep_exec(v[j - 1], windows)
        invariant
            lo <= j <= e <= v.len(),
            comp_start(v@, lo as int, j as int, windows) == comp_start(
                v@,
                lo as int,
                e as int,
                windows,
            ),
        decreases j,
    {
        j -= 1;
    }
    j
}

/// The parent directory of a path, as text (see `parent_in`).
pub fn parent_in_style(path: &str, windows: bool) -> (r: Option<String>)
    ensures
        crate::scanner::opt_view(r) == parent_in(path@, windows),
{
    let v = chars_of(path);
    let p = if windows {
        prefix_len_exec(&v)
    } else {
        0
    };
    let lo = if v.len() > p && is_sep_exec(v[p], windows) {
        p + 1
    } else {
        p
    };
    let e = trim_seps_end_exec(&v, lo, v.len(), windows);
    if e == lo {
        None
    } else {
        let k = comp_start_exec(&v, lo, e, windows);
        let r = trim_seps_end_exec(&v, lo, k, windows);
        Some(string_of(&slice(&v, 0, r)))
    }
}

/// The parent directory of a Windows path, as text.
pub fn parent_of(path: &str) -> (r: Option<String>)
    ensures
        match r {
            Some(p) => windows_parent(path@) == Some(p@),
            None => windows_parent(path@) is None,
        },
{
    parent_in_style(path, true)
}

fn norm_seps_vec(v: &Vec<char>) -> (r: Vec<char>)
    ensures
        r@ == norm_seps(v@),
{
    let mut r: Vec<char> = Vec::new();
    let mut i: usize = 0;
    while i < v.len()
        invariant
            i <= v.len(),
            r@ == norm_seps(v@.take(i as int)),
        decreases v.len() - i,
    {
        let c = if v[i] == '/' {
            '\\'
        } else {
            v[i]
        };
        assert(norm_seps(v@.take(i + 1)) =~= norm_seps(v@.take(i as int)).push(c));
        r.push(c);
        i += 1;
    }
    assert(v@.take(v.len() as int) == v@);
    r
}

/// The components of a Windows path (see `win_components`).
pub fn components_of(path: &Vec<char>) -> (r: Vec<Vec<char>>)
    ensures
        seqs(r@) == win_components(path@),
{
    proof {
        reveal_strlit("\\");
        reveal_strlit(".");
    }
    let p = prefix_len_exec(path);
    let mut r: Vec<Vec<char>> = Vec::new();
    if p == 2 {
        let mut d: Vec<char> = Vec::new();
        d.push(upper_char_exec(path[0]));
        d.push(':');
        assert(d@ =~= seq![upper_char(path@[0]), ':']);
        r.push(d);
        assert(seqs(r@) =~= seq![seq![upper_char(path@[0]), ':']]);
    } else {
        assert(seqs(r@) =~= Seq::<Seq<char>>::empty());
    }
    let ghost head0 = seqs(r@);
    let body = norm_seps_vec(&slice(path, p, path.len()));
    assert(body@ == norm_seps(path@.skip(p as int)));
    if body.len() > 0 && body[0] == '\\' {
        let root = chars_of("\\");
        r.push(root);
        assert(seqs(r@) =~= head0 + seq!["\\"@]);
    } else {
        assert(seqs(r@) =~= head0 + Seq::<Seq<char>>::empty());
    }
    let ghost head = seqs(r@);
    let sep = chars_of("\\");
    let parts = split_all_vec(&body, &sep);
    let ghost ps = seqs(parts@);
    let ghost pred = |c: Seq<char>| is_part(c);
    let mut i: usize = 0;
    proof {
        reveal(Seq::filter);
        assert(ps.take(0) =~= Seq::<Seq<char>>::empty());
    }
    assert(seqs(r@) =~= head + ps.take(0).filter(pred));
    while i < parts.len()
        invariant
            i <= parts.len(),
            ps == seqs(parts@),
            pred == (|c: Seq<char>| is_part(c)),
            seqs(r@) == head + ps.take(i as int).filter(pred),
            ".".view() == seq!['.'],
        decreases parts.len() - i,
    {
        proof {
            assert(ps.take(i + 1) =~= ps.take(i as int).push(ps[i as int]));
            ps.take(i as int).lemma_filter_push(ps[i as int], pred);
        }
        let part = &parts[i];
        let dot = chars_of(".");
        if part.len() > 0 && !crate::text::eq_vec(part, &dot) {
            let ghost before = seqs(r@);
            r.push(part.clone());
            assert(seqs(r@) =~= before.push(part@));
        }
        i += 1;
    }
    proof {
        assert(ps.take(parts.len() as int) == ps);
    }
    r
}

/// Whether two lists of components are equal up to the length of `b`.
fn components_start_with(a: &Vec<Vec<char>>, b: &Vec<Vec<char>>) -> (r: bool)
    ensures
        r == (b@.len() <= a@.len() && seqs(a@).take(b@.len() as int) == seqs(b@)),
{
    if b.len() > a.len() {
        return false;
    }
    let mut i: usize = 0;
    while i < b.len()
        invariant
            i <= b.len() <= a.len(),
            forall|j: int| 0 <= j < i ==> seqs(a@)[j] == seqs(b@)[j],
        decreases b.len() - i,
    {
        if !crate::text::eq_vec(&a[i], &b[i]) {
            assert(seqs(a@).take(b@.len() as int)[i as int] != seqs(b@)[i as int]);
            return false;
        }
        i += 1;
    }
    assert(seqs(a@).take(b@.len() as int) =~= seqs(b@));
    true
}

/// `prefix` names an ancestor of `path`, or `path` itself, component by
/// component (no file system access).
pub fn starts_with_lexically(path: &str, prefix: &str) -> (b: bool)
    ensures
        b == win_starts_with(path@, prefix@),
{
    let a = components_of(&chars_of(path));
    let c = components_of(&chars_of(prefix));
    components_start_with(&a, &c)
}

// ---------------------------------------------------------------------------
// Resolved paths and protected prefixes
// ---------------------------------------------------------------------------

/// The plain values of the resolved-path table.
pub open spec fn resolved_view(v: Seq<(String, Option<String>)>) -> Seq<(Seq<char>, Option<Seq<char>>)> {
    v.map_values(|e: (String, Option<String>)| (e.0@, crate::scanner::opt_view(e.1)))
}

/// The canonical form of `path`: for a path that exists (listed in
/// `resolved`, the first entry), what resolving it gave (`None` when that
/// failed); for any other path, the path itself.
pub open spec fn canonical_or_self(resolved: Seq<(Seq<char>, Option<Seq<char>>)>, path: Seq<char>) -> Option<Seq<char>>
    decreases resolved.len(),
{
    if resolved.len() == 0 {
        Some(path)
    } else if resolved[0].0 == path {
        resolved[0].1
    } else {
        canonical_or_self(resolved.drop_first(), path)
    }
}

/// `path` lies under `prefix`, either as written or once both are resolved.
pub open spec fn path_starts_with_spec(
    path: Seq<char>,
    prefix: Seq<char>,
    resolved: Seq<(Seq<char>, Option<Seq<char>>)>,
) -> bool {
    win_starts_with(path, prefix) || match (
        canonical_or_self(resolved, path),
        canonical_or_self(resolved, prefix),
    ) {
        (Some(a), Some(b)) => win_starts_with(a, b),
        _ => false,
    }
}

/// What the file system said of the paths the Windows rules look at.
#[derive(Debug, Clone)]
pub struct WindowsDirs {
    /// The system's own directories: `%SystemRoot%`, `%ProgramFiles%`,
    /// `%ProgramFiles(x86)%`, `%ProgramData%` (those that are set).
    pub protected: Vec<String>,
    /// For each path that exists: what resolving it gave.
    pub resolved: Vec<(String, Option<String>)>,
}

/// The texts of a list of strings.
pub open spec fn strings_view(v: Seq<String>) -> Seq<Seq<char>> {
    v.map_values(|s: String| s@)
}

/// Looks up the canonical form of a path.
pub fn canonicalize_if_exists(path: &str, resolved: &Vec<(String, Option<String>)>) -> (r: Option<String>)
    ensures
        crate::scanner::opt_view(r) == canonical_or_self(resolved_view(resolved@), path@),
{
    let ghost rv = resolved_view(resolved@);
    let mut i: usize = 0;
    assert(rv.skip(0) == rv);
    while i < resolved.len()
        invariant
            i <= resolved.len(),
            rv == resolved_view(resolved@),
            canonical_or_self(rv, path@) == canonical_or_self(rv.skip(i as int), path@),
        decreases resolved.len() - i,
    {
        assert(rv.skip(i as int)[0] == rv[i as int]);
        if crate::text::eq_vec(&chars_of_string(&resolved[i].0), &chars_of(path)) {
            return resolved[i].1.clone();
        }
        assert(rv.skip(i as int).drop_first() == rv.skip(i + 1));
        i += 1;
    }
    Some(string_of(&chars_of(path)))
}

/// `path` lies under `prefix`, as written or once both are resolved.
pub fn path_starts_with(path: &str, prefix: &str, resolved: &Vec<(String, Option<String>)>) -> (b: bool)
    ensures
        b == path_starts_with_spec(path@, prefix@, resolved_view(resolved@)),
{
    if starts_with_lexically(path, prefix) {
        return true;
    }
    match (canonicalize_if_exists(path, resolved), canonicalize_if_exists(prefix, resolved)) {
        (Some(a), Some(b)) => starts_with_lexically(a.as_str(), b.as_str()),
        _ => false,
    }
}

/// The protected prefixes: those of the four system directories that are
/// set and non-empty, in that order.
pub open spec fn protected_prefixes_spec(dirs: Seq<Option<Seq<char>>>) -> Seq<Seq<char>>
    decreases dirs.len(),
{
    if dirs.len() == 0 {
        seq![]
    } else {
        protected_prefixes_spec(dirs.drop_last()) + match dirs.last() {
            Some(d) => if d.len() > 0 {
                seq![d]
            } else {
                seq![]
            },
            None => seq![],
        }
    }
}

/// The system directories whose contents are protected: `%SystemRoot%`,
/// `%ProgramFiles%`, `%ProgramFiles(x86)%` and `%ProgramData%`, skipping
/// those that are unset or empty.
pub fn protected_prefixes(
    system_root: Option<String>,
    program_files: Option<String>,
    program_files_x86: Option<String>,
    program_data: Option<String>,
) -> (r: Vec<String>)
    ensures
        strings_view(r@) == protected_prefixes_spec(
            seq![
                crate::scanner::opt_view(system_root),
                crate::scanner::opt_view(program_files),
                crate::scanner::opt_view(program_files_x86),
                crate::scanner::opt_view(program_data),
            ],
        ),
{
    let ghost dirs = seq![
        crate::scanner::opt_view(system_root),
        crate::scanner::opt_view(program_files),
        crate::scanner::opt_view(program_files_x86),
        crate::scanner::opt_view(program_data),
    ];
    let all = vec![system_root, program_files, program_files_x86, program_data];
    assert(all@.map_values(|o: Option<String>| crate::scanner::opt_view(o)) =~= dirs);
    let mut r: Vec<String> = Vec::new();
    let mut i: usize = 0;
    assert(dirs.take(0) =~= Seq::<Option<Seq<char>>>::empty());
    while i < all.len()
        invariant
            i <= all.len(),
            all@.len() == 4,
            all@.map_values(|o: Option<String>| crate::scanner::opt_view(o)) == dirs,
            strings_view(r@) == protected_prefixes_spec(dirs.take(i as int)),
        decreases all.len() - i,
    {
        assert(dirs.take(i + 1).drop_last() =~= dirs.take(i as int));
        assert(dirs.take(i + 1).last() == crate::scanner::opt_view(all@[i as int]));
        let ghost before = r@;
        match &all[i] {
            Some(d) => {
                if !d.as_str().is_empty() {
                    r.push(d.clone());
                }
            },
            None => {},
        }
        assert(strings_view(r@) =~= protected_prefixes_spec(dirs.take(i + 1)));
        i += 1;
    }
    assert(dirs.take(4) =~= dirs);
    r
}

/// Some protected prefix holds `path` (as written or resolved).
pub open spec fn is_protected_spec(
    path: Seq<char>,
    protected: Seq<Seq<char>>,
    resolved: Seq<(Seq<char>, Option<Seq<char>>)>,
) -> bool {
    exists|i: int| 0 <= i < protected.len() && path_starts_with_spec(path, #[trigger] protected[i], resolved)
}

/// The path lies under one of the system's own directories.
pub fn is_protected_path(path: &str, dirs: &WindowsDirs) -> (b: bool)
    ensures
        b == is_protected_spec(path@, strings_view(dirs.protected@), resolved_view(dirs.resolved@)),
{
    let ghost ps = strings_view(dirs.protected@);
    let mut i: usize = 0;
    while i < dirs.protected.len()
        invariant
            i <= dirs.protected.len(),
            ps == strings_view(dirs.protected@),
            forall|j: int| 0 <= j < i ==> !path_starts_with_spec(path@, #[trigger] ps[j], resolved_view(dirs.resolved@)),
        decreases dirs.protected.len() - i,
    {
        if path_starts_with(path, dirs.protected[i].as_str(), &dirs.resolved) {
            assert(path_starts_with_spec(path@, ps[i as int], resolved_view(dirs.resolved@)));
            return true;
        }
        i += 1;
    }
    false
}

/// Ships with Windows: under a protected directory, or under
/// `\Windows\System32\` or `\Program Files\WindowsApps\` (ignoring case).
/// Only the executable's path counts, never its command line.
pub open spec fn is_microsoft_spec(
    exe: Seq<char>,
    protected: Seq<Seq<char>>,
    resolved: Seq<(Seq<char>, Option<Seq<char>>)>,
) -> bool {
    (exe.len() > 0 && is_protected_spec(exe, protected, resolved)) || contains(
        ascii_lower(exe),
        "\\windows\\system32\\"@,
    ) || contains(ascii_lower(exe), "\\program files\\windowsapps\\"@)
}

/// Whether an executable ships with Windows (the command line is not
/// consulted).
pub fn is_microsoft_path(executable_path: &str, command_line: &str, dirs: &WindowsDirs) -> (b: bool)
    ensures
        b == is_microsoft_spec(executable_path@, strings_view(dirs.protected@), resolved_view(dirs.resolved@)),
{
    if !executable_path.is_empty() && is_protected_path(executable_path, dirs) {
        return true;
    }
    let exe = ascii_lower_vec(&chars_of(executable_path));
    contains_str(&exe, "\\windows\\system32\\") || contains_str(&exe, "\\program files\\windowsapps\\")
}


/// How many leading components of a path are its prefix and root.
pub open spec fn win_head_len(s: Seq<char>) -> int {
    let p = prefix_len(s);
    let body = norm_seps(s.skip(p));
    (if p == 2 {
        1int
    } else {
        0int
    }) + (if body.len() > 0 && body[0] == '\\' {
        1int
    } else {
        0int
    })
}

/// The final name of a Windows path (`Path::file_name`): the last component
/// when it is a name other than `..`.
pub open spec fn win_file_name(s: Seq<char>) -> Option<Seq<char>> {
    let c = win_components(s);
    if c.len() > win_head_len(s) && c.last() != ".."@ {
        Some(c.last())
    } else {
        None
    }
}

/// The final name of a Windows path.
pub fn file_name_of(path: &str) -> (r: Option<String>)
    ensures
        crate::scanner::opt_view(r) == win_file_name(path@),
{
    let v = chars_of(path);
    let c = components_of(&v);
    let p = prefix_len_exec(&v);
    let body = norm_seps_vec(&slice(&v, p, v.len()));
    let head: usize = (if p == 2 {
        1
    } else {
        0
    }) + (if body.len() > 0 && body[0] == '\\' {
        1
    } else {
        0
    });
    if c.len() > head && !crate::text::eq_str(&c[c.len() - 1], "..") {
        Some(string_of(&c[c.len() - 1]))
    } else {
        None
    }
}

} // verus!
