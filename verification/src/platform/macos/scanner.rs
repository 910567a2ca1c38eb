//! Reading `lsof -F pcn` (sockets), `ps -o pid=,user=,etime=,command=`
//! (owners, uptimes, command lines) and `lsof -Fn -d cwd,txt` (directories
//! and executables) on macOS.
use vstd::prelude::*;

use crate::classifier::{SystemKind, UserEnv};
use crate::platform::macos::classifier::{classify, kind_spec};
use crate::platform::shared::{
    address_port_spec, extract_script_path, parse_address_port, script_path_spec,
};
use crate::scanner::{
    add_bindings, bindings_view, clone_bindings, lemma_merge_bindings_contains, lookup_text,
    merge_bindings, opt_view, pairs_view, processes_view, sort_by_port, sort_by_primary_port,
    text_for, view_with_kind, BindingView, PortBinding, PortProcess, ProcessView,
};
use crate::text::{
    chars_of, chars_of_string, eq_str, find, lines, lines_vec, opt_int, parse_u32, parse_u64,
    parse_uint, seqs, slice, split_all, split_all_vec, string_of, trim, trim_start, trim_start_vec,
    trim_vec, word_len, word_len_exec,
};

verus! {

// ---------------------------------------------------------------------------
// lsof -F pcn
// ---------------------------------------------------------------------------

/// What `lsof` reports of one process: pid, command name, sockets.
#[derive(Debug, Clone)]
pub struct LsofRecord {
    pub pid: Option<u32>,
    pub name: Option<String>,
    pub bindings: Vec<PortBinding>,
}

#[verifier::ext_equal]
pub struct LsofView {
    pub pid: Option<u32>,
    pub name: Option<Seq<char>>,
    pub bindings: Seq<BindingView>,
}

impl View for LsofRecord {
    type V = LsofView;

    open spec fn view(&self) -> LsofView {
        LsofView { pid: self.pid, name: opt_view(self.name), bindings: bindings_view(self.bindings@) }
    }
}

/// The plain values of a list of `lsof` records.
pub open spec fn lsof_view(v: Seq<LsofRecord>) -> Seq<LsofView> {
    v.map_values(|r: LsofRecord| r@)
}

/// A record with nothing read yet.
pub open spec fn empty_lsof() -> LsofView {
    LsofView { pid: None, name: None, bindings: seq![] }
}

/// A parsed pid as a `u32`.
pub open spec fn to_u32(o: Option<int>) -> Option<u32> {
    match o {
        Some(n) => Some(n as u32),
        None => None,
    }
}

#[verifier::ext_equal]
pub struct LsofState {
    pub records: Seq<LsofView>,
    pub current: LsofView,
}

/// One line of `lsof -F` output: `p<pid>` starts a new process (closing the
/// current one if it has a pid), `c<name>` names it, `n<address>` adds a
/// socket when the address parses; other lines are ignored.
pub open spec fn lsof_step(st: LsofState, line: Seq<char>, protocol: Seq<char>) -> LsofState {
    if line.len() == 0 {
        st
    } else {
        let value = line.skip(1);
        if line[0] == 'p' {
            let base = if st.current.pid is Some {
                LsofState { records: st.records.push(st.current), current: empty_lsof() }
            } else {
                st
            };
            LsofState {
                records: base.records,
                current: LsofView {
                    pid: to_u32(parse_uint(value, 4294967295)),
                    name: base.current.name,
                    bindings: base.current.bindings,
                },
            }
        } else if line[0] == 'c' {
            LsofState {
                records: st.records,
                current: LsofView {
                    pid: st.current.pid,
                    name: Some(value),
                    bindings: st.current.bindings,
                },
            }
        } else if line[0] == 'n' {
            match address_port_spec(value, protocol) {
                Some(b) => LsofState {
                    records: st.records,
                    current: LsofView {
                        pid: st.current.pid,
                        name: st.current.name,
                        bindings: st.current.bindings.push(b),
                    },
                },
                None => st,
            }
        } else {
            st
        }
    }
}

/// The parser's state after the given lines.
pub open spec fn lsof_run(ls: Seq<Seq<char>>, protocol: Seq<char>) -> LsofState
    decreases ls.len(),
{
    if ls.len() == 0 {
        LsofState { records: seq![], current: empty_lsof() }
    } else {
        lsof_step(lsof_run(ls.drop_last(), protocol), ls.last(), protocol)
    }
}

/// The records of an `lsof -F pcn` output.
pub open spec fn lsof_output_spec(stdout: Seq<char>, protocol: Seq<char>) -> Seq<LsofView> {
    let st = lsof_run(lines(stdout), protocol);
    if st.current.pid is Some {
        st.records.push(st.current)
    } else {
        st.records
    }
}

/// Every non-empty line starts with an ASCII character (its field tag).
pub open spec fn tags_are_ascii(stdout: Seq<char>) -> bool {
    forall|i: int|
        0 <= i < lines(stdout).len() && #[trigger] lines(stdout)[i].len() > 0 ==> (lines(
            stdout,
        )[i][0] as u32) < 128
}

fn clone_lsof(r: &LsofRecord) -> (c: LsofRecord)
    ensures
        c@ == r@,
{
    LsofRecord { pid: r.pid, name: r.name.clone(), bindings: clone_bindings(&r.bindings) }
}

/// Parses `lsof -F pcn` output. Every non-empty line must start with an
/// ASCII tag, as `lsof` prints them.
pub fn parse_lsof_output(stdout: &str, protocol: &str) -> (r: Vec<LsofRecord>)
    requires
        tags_are_ascii(stdout@),
    ensures
        lsof_view(r@) == lsof_output_spec(stdout@, protocol@),
{
    let all = lines_vec(&chars_of(stdout));
    let ghost ls = seqs(all@);
    let mut records: Vec<LsofRecord> = Vec::new();
    let mut current = LsofRecord { pid: None, name: None, bindings: Vec::new() };
    let mut i: usize = 0;
    assert(ls.take(0) =~= Seq::<Seq<char>>::empty());
    assert(current@ =~= empty_lsof());
    assert(lsof_view(records@) =~= Seq::<LsofView>::empty());
    while i < all.len()
        invariant
            i <= all.len(),
            ls == seqs(all@),
            ls == lines(stdout@),
            lsof_run(ls.take(i as int), protocol@) == (LsofState {
                records: lsof_view(records@),
                current: current@,
            }),
        decreases all.len() - i,
    {
        assert(ls.take(i + 1).drop_last() == ls.take(i as int));
        assert(ls.take(i + 1).last() == all@[i as int]@);
        let line = &all[i];
        if line.len() > 0 {
            let value = slice(line, 1, line.len());
            let tag = line[0];
            if tag == 'p' {
                if current.pid.is_some() {
                    let ghost before = records@;
                    let done = clone_lsof(&current);
                    records.push(done);
                    assert(lsof_view(records@) == lsof_view(before).push(current@));
                    current = LsofRecord { pid: None, name: None, bindings: Vec::new() };
                    assert(current@ =~= empty_lsof());
                }
                current.pid = parse_u32(&value);
            } else if tag == 'c' {
                current.name = Some(string_of(&value));
            } else if tag == 'n' {
                let value_s = string_of(&value);
                match parse_address_port(value_s.as_str(), protocol) {
                    Some(b) => {
                        let ghost before = current.bindings@;
                        current.bindings.push(b);
                        assert(bindings_view(current.bindings@) == bindings_view(before).push(
                            b@,
                        ));
                    },
                    None => {},
                }
            }
        }
        i += 1;
    }
    assert(ls.take(all.len() as int) == ls);
    if current.pid.is_some() {
        let ghost before = records@;
        records.push(current);
        assert(lsof_view(records@) == lsof_view(before).push(current@));
    }
    records
}

// ---------------------------------------------------------------------------
// Merging records of the same process
// ---------------------------------------------------------------------------

/// Where the record of `pid` is among merged records.
pub open spec fn lsof_pid_index(rs: Seq<LsofView>, pid: u32) -> Option<int>
    decreases rs.len(),
{
    if rs.len() == 0 {
        None
    } else {
        match lsof_pid_index(rs.drop_last(), pid) {
            Some(k) => Some(k),
            None => if rs.last().pid == Some(pid) {
                Some(rs.len() - 1)
            } else {
                None
            },
        }
    }
}

/// `r` folded into `existing`: the name is kept unless missing, the new
/// sockets are added.
pub open spec fn lsof_absorb(existing: LsofView, r: LsofView) -> LsofView {
    LsofView {
        pid: existing.pid,
        name: if existing.name is None {
            r.name
        } else {
            existing.name
        },
        bindings: merge_bindings(existing.bindings, r.bindings),
    }
}

/// One record per pid, in order of first appearance; records without a pid
/// are dropped.
pub open spec fn lsof_merge_spec(rs: Seq<LsofView>) -> Seq<LsofView>
    decreases rs.len(),
{
    if rs.len() == 0 {
        seq![]
    } else {
        let prev = lsof_merge_spec(rs.drop_last());
        let r = rs.last();
        match r.pid {
            None => prev,
            Some(p) => match lsof_pid_index(prev, p) {
                Some(k) => prev.update(k, lsof_absorb(prev[k], r)),
                None => prev.push(r),
            },
        }
    }
}

proof fn lemma_lsof_pid_index_prefix(rs: Seq<LsofView>, n: int, pid: u32)
    requires
        0 <= n <= rs.len(),
        lsof_pid_index(rs.take(n), pid) is Some,
    ensures
        lsof_pid_index(rs, pid) == lsof_pid_index(rs.take(n), pid),
    decreases rs.len() - n,
{
    if n < rs.len() {
        assert(rs.take(n + 1).drop_last() == rs.take(n));
        lemma_lsof_pid_index_prefix(rs, n + 1, pid);
    } else {
        assert(rs.take(n) == rs);
    }
}

proof fn lemma_lsof_pid_index_bounds(rs: Seq<LsofView>, pid: u32)
    ensures
        lsof_pid_index(rs, pid) matches Some(k) ==> 0 <= k < rs.len() && rs[k].pid == Some(pid),
        lsof_pid_index(rs, pid) is None ==> forall|j: int|
            0 <= j < rs.len() ==> rs[j].pid != Some(pid),
    decreases rs.len(),
{
    if rs.len() > 0 {
        lemma_lsof_pid_index_bounds(rs.drop_last(), pid);
        assert forall|j: int| 0 <= j < rs.len() - 1 implies rs[j] == rs.drop_last()[j] by {}
    }
}

fn lsof_pid_position(keyed: &Vec<LsofRecord>, pid: u32) -> (r: Option<usize>)
    ensures
        opt_int(r) == lsof_pid_index(lsof_view(keyed@), pid),
{
    let ghost rv = lsof_view(keyed@);
    let mut i: usize = 0;
    assert(rv.take(0) =~= Seq::<LsofView>::empty());
    while i < keyed.len()
        invariant
            i <= keyed.len(),
            rv == lsof_view(keyed@),
            lsof_pid_index(rv.take(i as int), pid) is None,
        decreases keyed.len() - i,
    {
        assert(rv.take(i + 1).drop_last() == rv.take(i as int));
        if keyed[i].pid == Some(pid) {
            proof {
                lemma_lsof_pid_index_prefix(rv, i as int + 1, pid);
            }
            return Some(i);
        }
        i += 1;
    }
    assert(rv.take(keyed.len() as int) == rv);
    None
}

/// Merges the records of each process into one, keeping each socket once.
pub fn merge_by_pid(records: Vec<LsofRecord>) -> (r: Vec<LsofRecord>)
    ensures
        lsof_view(r@) == lsof_merge_spec(lsof_view(records@)),
{
    let ghost rv = lsof_view(records@);
    let mut keyed: Vec<LsofRecord> = Vec::new();
    let mut i: usize = 0;
    assert(rv.take(0) =~= Seq::<LsofView>::empty());
    while i < records.len()
        invariant
            i <= records.len(),
            rv == lsof_view(records@),
            lsof_view(keyed@) == lsof_merge_spec(rv.take(i as int)),
        decreases records.len() - i,
    {
        assert(rv.take(i + 1).drop_last() == rv.take(i as int));
        assert(rv.take(i + 1).last() == records@[i as int]@);
        let record = clone_lsof(&records[i]);
        match record.pid {
            None => {},
            Some(pid) => {
                match lsof_pid_position(&keyed, pid) {
                    Some(k) => {
                        proof {
                            lemma_lsof_pid_index_bounds(lsof_view(keyed@), pid);
                        }
                        let ghost before = lsof_view(keyed@);
                        let mut existing = keyed.remove(k);
                        assert(existing@ == before[k as int]);
                        if existing.name.is_none() {
                            existing.name = record.name.clone();
                        }
                        add_bindings(&mut existing.bindings, &record.bindings);
                        assert(existing@ == lsof_absorb(before[k as int], record@));
                        keyed.insert(k, existing);
                        assert(lsof_view(keyed@) =~= before.update(
                            k as int,
                            lsof_absorb(before[k as int], record@),
                        ));
                    },
                    None => {
                        let ghost before = keyed@;
                        keyed.push(record);
                        assert(lsof_view(keyed@) == lsof_view(before).push(record@));
                    },
                }
            },
        }
        i += 1;
    }
    assert(rv.take(records.len() as int) == rv);
    keyed
}

// ---------------------------------------------------------------------------
// ps -ww -o pid=,user=,etime=,command=
// ---------------------------------------------------------------------------

/// What `ps` reports of one process.
#[derive(Debug, Clone)]
pub struct PsInfo {
    pub user: String,
    pub command_line: String,
    pub uptime_seconds: u64,
}

pub struct PsInfoView {
    pub user: Seq<char>,
    pub command_line: Seq<char>,
    pub uptime_seconds: int,
}

impl View for PsInfo {
    type V = PsInfoView;

    open spec fn view(&self) -> PsInfoView {
        PsInfoView {
            user: self.user@,
            command_line: self.command_line@,
            uptime_seconds: self.uptime_seconds as int,
        }
    }
}

/// The first whitespace-delimited token of `s` (after leading whitespace),
/// and everything after it, verbatim.
pub open spec fn split_token_spec(s: Seq<char>) -> (Seq<char>, Seq<char>) {
    let t = trim_start(s);
    let n = word_len(t);
    (t.take(n as int), t.skip(n as int))
}

/// Splits off the first token; `ps` pads its columns with runs of spaces.
pub fn split_token(input: &str) -> (r: (String, String))
    ensures
        (r.0@, r.1@) == split_token_spec(input@),
{
    let v = chars_of(input);
    let t = trim_start_vec(&v);
    let n = word_len_exec(&t);
    proof {
        crate::text::lemma_word_len(t@);
    }
    (string_of(&slice(&t, 0, n)), string_of(&slice(&t, n, t.len())))
}

/// A field's number, or 0 when it is not one.
pub open spec fn parse_or_zero(s: Seq<char>) -> int {
    match parse_uint(s, 18446744073709551615) {
        Some(n) => n,
        None => 0,
    }
}

/// The seconds an elapsed time `[[dd-]hh:]mm:ss` stands for. A missing or
/// invalid field counts as zero; fields before the hours are ignored.
pub open spec fn etime_spec(value: Seq<char>) -> int {
    let days = match find(value, "-"@) {
        Some(i) => parse_or_zero(value.take(i)),
        None => 0,
    };
    let clock = match find(value, "-"@) {
        Some(i) => value.skip(i + 1),
        None => value,
    };
    let parts = split_all(clock, ":"@);
    let n = parts.len();
    let seconds = if n >= 1 {
        parse_or_zero(parts[n - 1])
    } else {
        0
    };
    let minutes = if n >= 2 {
        parse_or_zero(parts[n - 2])
    } else {
        0
    };
    let hours = if n >= 3 {
        parse_or_zero(parts[n - 3])
    } else {
        0
    };
    days * 86400 + hours * 3600 + minutes * 60 + seconds
}

fn parse_or_zero_exec(v: &Vec<char>) -> (r: u64)
    ensures
        r == parse_or_zero(v@),
{
    match parse_u64(v) {
        Some(n) => n,
        None => 0,
    }
}

/// Whether an elapsed time's seconds fit in a `u64`.
pub fn etime_in_range(value: &str) -> (b: bool)
    ensures
        b == (etime_spec(value@) <= u64::MAX),
{
    let (d, h, m, s) = etime_fields(value);
    proof {
        lemma_nonneg_parse(d as int, h as int, m as int, s as int);
    }
    (d as u128) * 86400 + (h as u128) * 3600 + (m as u128) * 60 + (s as u128)
        <= 18446744073709551615u128
}

proof fn lemma_nonneg_parse(d: int, h: int, m: int, s: int)
    requires
        0 <= d <= u64::MAX,
        0 <= h <= u64::MAX,
        0 <= m <= u64::MAX,
        0 <= s <= u64::MAX,
    ensures
        d * 86400 + h * 3600 + m * 60 + s <= u128::MAX,
{
    assert(d * 86400 <= u64::MAX * 86400) by (nonlinear_arith)
        requires
            0 <= d <= u64::MAX,
    ;
    assert(h * 3600 <= u64::MAX * 3600) by (nonlinear_arith)
        requires
            0 <= h <= u64::MAX,
    ;
    assert(m * 60 <= u64::MAX * 60) by (nonlinear_arith)
        requires
            0 <= m <= u64::MAX,
    ;
}

/// The day, hour, minute and second fields of an elapsed time.
fn etime_fields(value: &str) -> (r: (u64, u64, u64, u64))
    ensures
        etime_spec(value@) == r.0 * 86400 + r.1 * 3600 + r.2 * 60 + r.3,
{
    let v = chars_of(value);
    let dash = chars_of("-");
    let colon = chars_of(":");
    proof {
        reveal_strlit("-");
        reveal_strlit(":");
    }
    let (days, clock) = match crate::text::find_vec(&v, &dash) {
        Some(i) => {
            proof {
                crate::text::lemma_find_from(v@, dash@, 0);
            }
            (parse_or_zero_exec(&slice(&v, 0, i)), slice(&v, i + 1, v.len()))
        },
        None => (0, v.clone()),
    };
    let parts = split_all_vec(&clock, &colon);
    let n = parts.len();
    let seconds = if n >= 1 {
        parse_or_zero_exec(&parts[n - 1])
    } else {
        0
    };
    let minutes = if n >= 2 {
        parse_or_zero_exec(&parts[n - 2])
    } else {
        0
    };
    let hours = if n >= 3 {
        parse_or_zero_exec(&parts[n - 3])
    } else {
        0
    };
    (days, hours, minutes, seconds)
}

/// Converts `ps` elapsed time (`[[dd-]hh:]mm:ss`) to seconds.
pub fn parse_etime(value: &str) -> (r: u64)
    requires
        etime_spec(value@) <= u64::MAX,
    ensures
        r == etime_spec(value@),
{
    let (d, h, m, s) = etime_fields(value);
    proof {
        lemma_nonneg_parse(d as int, h as int, m as int, s as int);
    }
    assert(d * 86400 <= d * 86400 + h * 3600 + m * 60 + s);
    assert(d * 86400 + h * 3600 <= d * 86400 + h * 3600 + m * 60 + s);
    assert(d * 86400 + h * 3600 + m * 60 <= d * 86400 + h * 3600 + m * 60 + s);
    d * 86400 + h * 3600 + m * 60 + s
}

/// The pid, owner, elapsed time and command line of a `ps` line, when its
/// first token is a pid.
pub open spec fn ps_fields(line: Seq<char>) -> Option<(int, Seq<char>, Seq<char>, Seq<char>)> {
    let (pid_str, rest) = split_token_spec(line);
    let (user, rest2) = split_token_spec(rest);
    let (etime, rest3) = split_token_spec(rest2);
    match parse_uint(pid_str, 4294967295) {
        Some(pid) => Some((pid, user, etime, trim(rest3))),
        None => None,
    }
}

/// A `ps` line whose elapsed time, if it is parsed at all, fits in a `u64`.
pub open spec fn ps_line_in_range(line: Seq<char>) -> bool {
    match ps_fields(line) {
        Some((pid, user, etime, cmd)) => etime_spec(etime) <= u64::MAX,
        None => true,
    }
}

/// The pid and facts a `ps` line gives, if it starts with a pid.
pub open spec fn ps_line_spec(line: Seq<char>) -> Option<(u32, PsInfoView)> {
    match ps_fields(line) {
        Some((pid, user, etime, cmd)) => Some(
            (
                pid as u32,
                PsInfoView { user: user, command_line: cmd, uptime_seconds: etime_spec(etime) },
            ),
        ),
        None => None,
    }
}

/// Parses one line of `ps` output: `None` unless it starts with a pid.
pub fn parse_ps_line(line: &str) -> (r: Option<(u32, PsInfo)>)
    requires
        ps_line_in_range(line@),
    ensures
        match r {
            Some(x) => ps_line_spec(line@) == Some((x.0, x.1@)),
            None => ps_line_spec(line@) is None,
        },
{
    let (pid_str, rest) = split_token(line);
    let pid = match parse_u32(&chars_of_string(&pid_str)) {
        Some(p) => p,
        None => return None,
    };
    let (user, rest2) = split_token(rest.as_str());
    let (etime, rest3) = split_token(rest2.as_str());
    let uptime = parse_etime(etime.as_str());
    let cmd = string_of(&trim_vec(&chars_of_string(&rest3)));
    Some((pid, PsInfo { user, command_line: cmd, uptime_seconds: uptime }))
}

// ---------------------------------------------------------------------------
// lsof -a -p <pids> -d cwd,txt -Fn
// ---------------------------------------------------------------------------

/// Where a process runs from.
#[derive(Debug, Clone)]
pub struct ProcessPaths {
    pub working_directory: String,
    pub executable_path: String,
}

pub struct PathsView {
    pub working_directory: Seq<char>,
    pub executable_path: Seq<char>,
}

impl View for ProcessPaths {
    type V = PathsView;

    open spec fn view(&self) -> PathsView {
        PathsView {
            working_directory: self.working_directory@,
            executable_path: self.executable_path@,
        }
    }
}

/// The plain values of the paths read per pid.
pub open spec fn paths_view(v: Seq<(u32, ProcessPaths)>) -> Seq<(u32, PathsView)> {
    v.map_values(|e: (u32, ProcessPaths)| (e.0, e.1@))
}

/// No paths read yet.
pub open spec fn empty_paths() -> PathsView {
    PathsView { working_directory: seq![], executable_path: seq![] }
}

/// Where the entry of `pid` is.
pub open spec fn paths_index(m: Seq<(u32, PathsView)>, pid: u32) -> Option<int>
    decreases m.len(),
{
    if m.len() == 0 {
        None
    } else {
        match paths_index(m.drop_last(), pid) {
            Some(k) => Some(k),
            None => if m.last().0 == pid {
                Some(m.len() - 1)
            } else {
                None
            },
        }
    }
}

/// The entry of `pid`, or an empty one.
pub open spec fn paths_entry(m: Seq<(u32, PathsView)>, pid: u32) -> PathsView {
    match paths_index(m, pid) {
        Some(k) => m[k].1,
        None => empty_paths(),
    }
}

/// `m` with the entry of `pid` set to `e` (added when missing).
pub open spec fn paths_set(m: Seq<(u32, PathsView)>, pid: u32, e: PathsView) -> Seq<
    (u32, PathsView),
> {
    match paths_index(m, pid) {
        Some(k) => m.update(k, (pid, e)),
        None => m.push((pid, e)),
    }
}

pub struct PathsState {
    pub pid: Option<u32>,
    pub fd: Option<Seq<char>>,
    pub map: Seq<(u32, PathsView)>,
}

/// One line: `p<pid>` selects a process, `f<fd>` a descriptor, and `n<path>`
/// records the `cwd` descriptor as the working directory and the first `txt`
/// one as the executable (later `txt` lines are mapped libraries).
pub open spec fn paths_step(st: PathsState, line: Seq<char>) -> PathsState {
    if line.len() == 0 {
        st
    } else {
        let value = line.skip(1);
        if line[0] == 'p' {
            PathsState { pid: to_u32(parse_uint(value, 4294967295)), fd: None, map: st.map }
        } else if line[0] == 'f' {
            PathsState { pid: st.pid, fd: Some(value), map: st.map }
        } else if line[0] == 'n' {
            match st.pid {
                None => st,
                Some(p) => {
                    let e = paths_entry(st.map, p);
                    let e2 = if st.fd == Some("cwd"@) {
                        PathsView { working_directory: value, executable_path: e.executable_path }
                    } else if st.fd == Some("txt"@) && e.executable_path.len() == 0 {
                        PathsView { working_directory: e.working_directory, executable_path: value }
                    } else {
                        e
                    };
                    PathsState { pid: st.pid, fd: st.fd, map: paths_set(st.map, p, e2) }
                },
            }
        } else {
            st
        }
    }
}

/// The reader's state after the given lines.
pub open spec fn paths_run(ls: Seq<Seq<char>>, map: Seq<(u32, PathsView)>) -> PathsState
    decreases ls.len(),
{
    if ls.len() == 0 {
        PathsState { pid: None, fd: None, map: map }
    } else {
        paths_step(paths_run(ls.drop_last(), map), ls.last())
    }
}

proof fn lemma_paths_index_prefix(m: Seq<(u32, PathsView)>, n: int, pid: u32)
    requires
        0 <= n <= m.len(),
        paths_index(m.take(n), pid) is Some,
    ensures
        paths_index(m, pid) == paths_index(m.take(n), pid),
    decreases m.len() - n,
{
    if n < m.len() {
        assert(m.take(n + 1).drop_last() == m.take(n));
        lemma_paths_index_prefix(m, n + 1, pid);
    } else {
        assert(m.take(n) == m);
    }
}

proof fn lemma_paths_index_bounds(m: Seq<(u32, PathsView)>, pid: u32)
    ensures
        paths_index(m, pid) matches Some(k) ==> 0 <= k < m.len() && m[k].0 == pid,
    decreases m.len(),
{
    if m.len() > 0 {
        lemma_paths_index_bounds(m.drop_last(), pid);
    }
}

fn paths_position(m: &Vec<(u32, ProcessPaths)>, pid: u32) -> (r: Option<usize>)
    ensures
        opt_int(r) == paths_index(paths_view(m@), pid),
{
    let ghost mv = paths_view(m@);
    let mut i: usize = 0;
    assert(mv.take(0) =~= Seq::<(u32, PathsView)>::empty());
    while i < m.len()
        invariant
            i <= m.len(),
            mv == paths_view(m@),
            paths_index(mv.take(i as int), pid) is None,
        decreases m.len() - i,
    {
        assert(mv.take(i + 1).drop_last() == mv.take(i as int));
        if m[i].0 == pid {
            proof {
                lemma_paths_index_prefix(mv, i as int + 1, pid);
            }
            return Some(i);
        }
        i += 1;
    }
    assert(mv.take(m.len() as int) == mv);
    None
}

/// Whether every non-empty line of an output starts with an ASCII tag, as
/// the `lsof` parsers need.
pub fn output_tags_are_ascii(stdout: &str) -> (b: bool)
    ensures
        b == tags_are_ascii(stdout@),
{
    let all = lines_vec(&chars_of(stdout));
    let ghost ls = seqs(all@);
    let mut i: usize = 0;
    while i < all.len()
        invariant
            i <= all.len(),
            ls == seqs(all@),
            ls == lines(stdout@),
            forall|j: int| 0 <= j < i && #[trigger] ls[j].len() > 0 ==> (ls[j][0] as u32) < 128,
        decreases all.len() - i,
    {
        assert(ls[i as int] == all@[i as int]@);
        if all[i].len() > 0 && (all[i][0] as u32) >= 128 {
            return false;
        }
        i += 1;
    }
    true
}

/// Whether a `ps` line's elapsed time, if it is read at all, fits in a
/// `u64`.
pub fn ps_line_fits(line: &str) -> (b: bool)
    ensures
        b == ps_line_in_range(line@),
{
    let (pid_str, rest) = split_token(line);
    match parse_u32(&chars_of_string(&pid_str)) {
        None => true,
        Some(_) => {
            let (_user, rest2) = split_token(rest.as_str());
            let (etime, _rest3) = split_token(rest2.as_str());
            etime_in_range(etime.as_str())
        },
    }
}

/// Whether every line of a `ps` output fits (see `ps_line_fits`), as
/// `parse_ps_output` needs.
pub fn ps_output_fits(stdout: &str) -> (b: bool)
    ensures
        b == ps_output_in_range(stdout@),
{
    let all = lines_vec(&chars_of(stdout));
    let ghost ls = seqs(all@);
    let mut i: usize = 0;
    while i < all.len()
        invariant
            i <= all.len(),
            ls == seqs(all@),
            ls == lines(stdout@),
            forall|j: int| 0 <= j < i ==> ps_line_in_range(#[trigger] ls[j]),
        decreases all.len() - i,
    {
        assert(ls[i as int] == all@[i as int]@);
        let text = string_of(&all[i]);
        if !ps_line_fits(text.as_str()) {
            return false;
        }
        i += 1;
    }
    true
}

/// Adds the paths reported by one `lsof -Fn -d cwd,txt` output to `acc`.
pub fn parse_lsof_paths(stdout: &str, acc: &mut Vec<(u32, ProcessPaths)>)
    requires
        tags_are_ascii(stdout@),
    ensures
        paths_view(final(acc)@) == paths_run(lines(stdout@), paths_view(old(acc)@)).map,
{
    let all = lines_vec(&chars_of(stdout));
    let ghost ls = seqs(all@);
    let ghost start = paths_view(acc@);
    let mut pid: Option<u32> = None;
    let mut fd: Option<Vec<char>> = None;
    let mut i: usize = 0;
    assert(ls.take(0) =~= Seq::<Seq<char>>::empty());
    while i < all.len()
        invariant
            i <= all.len(),
            ls == seqs(all@),
            ls == lines(stdout@),
            paths_run(ls.take(i as int), start) == (PathsState {
                pid: pid,
                fd: match fd {
                    Some(f) => Some(f@),
                    None => None,
                },
                map: paths_view(acc@),
            }),
        decreases all.len() - i,
    {
        assert(ls.take(i + 1).drop_last() == ls.take(i as int));
        assert(ls.take(i + 1).last() == all@[i as int]@);
        let line = &all[i];
        if line.len() > 0 {
            let value = slice(line, 1, line.len());
            let tag = line[0];
            if tag == 'p' {
                pid = parse_u32(&value);
                fd = None;
            } else if tag == 'f' {
                fd = Some(value);
            } else if tag == 'n' {
                match pid {
                    None => {},
                    Some(p) => {
                        let ghost m = paths_view(acc@);
                        let pos = paths_position(acc, p);
                        proof {
                            lemma_paths_index_bounds(m, p);
                        }
                        let mut e = match pos {
                            Some(k) => ProcessPaths {
                                working_directory: acc[k].1.working_directory.clone(),
                                executable_path: acc[k].1.executable_path.clone(),
                            },
                            None => ProcessPaths {
                                working_directory: String::new(),
                                executable_path: String::new(),
                            },
                        };
                        assert(e@ == paths_entry(m, p));
                        let is_cwd = match &fd {
                            Some(f) => eq_str(f, "cwd"),
                            None => false,
                        };
                        let is_txt = match &fd {
                            Some(f) => eq_str(f, "txt"),
                            None => false,
                        };
                        if is_cwd {
                            e.working_directory = string_of(&value);
                        } else if is_txt && e.executable_path.as_str().is_empty() {
                            e.executable_path = string_of(&value);
                        }
                        match pos {
                            Some(k) => {
                                acc.set(k, (p, e));
                            },
                            None => {
                                acc.push((p, e));
                            },
                        }
                        assert(paths_view(acc@) =~= paths_set(m, p, e@));
                    },
                }
            }
        }
        i += 1;
    }
    assert(ls.take(all.len() as int) == ls);
}

// ---------------------------------------------------------------------------
// Assembling the scan
// ---------------------------------------------------------------------------

/// The plain values of the `ps` facts read per pid.
pub open spec fn ps_view(v: Seq<(u32, PsInfo)>) -> Seq<(u32, PsInfoView)> {
    v.map_values(|e: (u32, PsInfo)| (e.0, e.1@))
}

/// The `ps` facts of `pid` (the first entry), or none at all.
pub open spec fn ps_for(entries: Seq<(u32, PsInfoView)>, pid: u32) -> PsInfoView
    decreases entries.len(),
{
    if entries.len() == 0 {
        PsInfoView { user: seq![], command_line: seq![], uptime_seconds: 0 }
    } else if entries[0].0 == pid {
        entries[0].1
    } else {
        ps_for(entries.drop_first(), pid)
    }
}

fn lookup_ps(entries: &Vec<(u32, PsInfo)>, pid: u32) -> (r: PsInfo)
    ensures
        r@ == ps_for(ps_view(entries@), pid),
{
    let ghost ev = ps_view(entries@);
    let mut i: usize = 0;
    assert(ev.skip(0) == ev);
    while i < entries.len()
        invariant
            i <= entries.len(),
            ev == ps_view(entries@),
            ps_for(ev, pid) == ps_for(ev.skip(i as int), pid),
        decreases entries.len() - i,
    {
        assert(ev.skip(i as int)[0] == ev[i as int]);
        if entries[i].0 == pid {
            let e = &entries[i].1;
            return PsInfo {
                user: e.user.clone(),
                command_line: e.command_line.clone(),
                uptime_seconds: e.uptime_seconds,
            };
        }
        assert(ev.skip(i as int).drop_first() == ev.skip(i + 1));
        i += 1;
    }
    PsInfo { user: String::new(), command_line: String::new(), uptime_seconds: 0 }
}

fn lookup_paths(m: &Vec<(u32, ProcessPaths)>, pid: u32) -> (r: ProcessPaths)
    ensures
        r@ == paths_entry(paths_view(m@), pid),
{
    let pos = paths_position(m, pid);
    proof {
        lemma_paths_index_bounds(paths_view(m@), pid);
    }
    match pos {
        Some(k) => ProcessPaths {
            working_directory: m[k].1.working_directory.clone(),
            executable_path: m[k].1.executable_path.clone(),
        },
        None => ProcessPaths { working_directory: String::new(), executable_path: String::new() },
    }
}

/// Adds the `ps` facts of one output to `acc`; a later line for the same pid
/// replaces an earlier one.
pub fn parse_ps_output(stdout: &str, acc: &mut Vec<(u32, PsInfo)>)
    requires
        forall|i: int|
            0 <= i < lines(stdout@).len() ==> ps_line_in_range(#[trigger] lines(stdout@)[i]),
    ensures
        ps_view(final(acc)@) == ps_prepend(lines(stdout@), ps_view(old(acc)@)),
        forall|pid: u32|
            ps_for(ps_view(final(acc)@), pid) == ps_after(lines(stdout@), ps_view(old(acc)@), pid),
{
    let all = lines_vec(&chars_of(stdout));
    let ghost ls = seqs(all@);
    let ghost start = ps_view(acc@);
    let mut i: usize = 0;
    assert(ls.take(0) =~= Seq::<Seq<char>>::empty());
    while i < all.len()
        invariant
            i <= all.len(),
            ls == seqs(all@),
            ls == lines(stdout@),
            forall|j: int| 0 <= j < ls.len() ==> ps_line_in_range(#[trigger] ls[j]),
            forall|pid: u32|
                ps_for(ps_view(acc@), pid) == ps_after(ls.take(i as int), start, pid),
            ps_view(acc@) == ps_prepend(ls.take(i as int), start),
        decreases all.len() - i,
    {
        assert(ls.take(i + 1).drop_last() == ls.take(i as int));
        assert(ls.take(i + 1).last() == all@[i as int]@);
        let text = string_of(&all[i]);
        assert(ps_line_in_range(ls[i as int]));
        match parse_ps_line(text.as_str()) {
            Some((pid, info)) => {
                let ghost before = ps_view(acc@);
                acc.insert(0, (pid, info));
                assert(ps_view(acc@) =~= seq![(pid, info@)] + before);
                assert(ls.take(i + 1).last() == text@);
                assert(ps_line_spec(text@) == Some((pid, info@)));
                assert(ps_view(acc@)[0] == (pid, info@));
                assert(ps_view(acc@).drop_first() == before);
                assert forall|q: u32|
                    ps_for(ps_view(acc@), q) == ps_after(ls.take(i + 1), start, q) by {
                    if q != pid {
                        assert(ps_for(ps_view(acc@), q) == ps_for(before, q));
                        assert(ps_after(ls.take(i + 1), start, q) == ps_after(
                            ls.take(i as int),
                            start,
                            q,
                        ));
                    }
                }
            },
            None => {},
        }
        i += 1;
    }
    assert(ls.take(all.len() as int) == ls);
}

/// The `ps` entries once the lines `ls` were read on top of `start`: each
/// line read is put in front.
pub open spec fn ps_prepend(ls: Seq<Seq<char>>, start: Seq<(u32, PsInfoView)>) -> Seq<
    (u32, PsInfoView),
>
    decreases ls.len(),
{
    if ls.len() == 0 {
        start
    } else {
        let prev = ps_prepend(ls.drop_last(), start);
        match ps_line_spec(ls.last()) {
            Some(e) => seq![e] + prev,
            None => prev,
        }
    }
}

/// The `ps` facts known of `pid` once the lines `ls` were read on top of
/// `start`: the last line for the pid wins.
pub open spec fn ps_after(ls: Seq<Seq<char>>, start: Seq<(u32, PsInfoView)>, pid: u32) -> PsInfoView
    decreases ls.len(),
{
    if ls.len() == 0 {
        ps_for(start, pid)
    } else {
        match ps_line_spec(ls.last()) {
            Some((p, info)) => if p == pid {
                info
            } else {
                ps_after(ls.drop_last(), start, pid)
            },
            None => ps_after(ls.drop_last(), start, pid),
        }
    }
}

/// The process a merged record describes, before classification.
pub open spec fn base_process(
    pid: u32,
    name: Seq<char>,
    bindings: Seq<BindingView>,
    ps: PsInfoView,
    paths: PathsView,
    root: Seq<char>,
) -> ProcessView {
    ProcessView {
        pid: pid,
        name: name,
        user: ps.user,
        ports: bindings,
        executable_path: paths.executable_path,
        script_path: script_path_spec(ps.command_line, name),
        command_line: ps.command_line,
        working_directory: paths.working_directory,
        project_root: root,
        system_kind: SystemKind::User,
        is_system_service: false,
        uptime_seconds: ps.uptime_seconds as u64,
    }
}

/// One classified process per merged record that has a pid, a name and at
/// least one socket.
pub open spec fn processes_spec(
    rs: Seq<LsofView>,
    ps: Seq<(u32, PsInfoView)>,
    paths: Seq<(u32, PathsView)>,
    roots: Seq<(u32, Seq<char>)>,
    home: Seq<char>,
    user: Seq<char>,
) -> Seq<ProcessView>
    decreases rs.len(),
{
    if rs.len() == 0 {
        seq![]
    } else {
        let r = rs.last();
        processes_spec(rs.drop_last(), ps, paths, roots, home, user) + match (r.pid, r.name) {
            (Some(pid), Some(name)) => if r.bindings.len() == 0 {
                seq![]
            } else {
                let b = base_process(
                    pid,
                    name,
                    r.bindings,
                    ps_for(ps, pid),
                    paths_entry(paths, pid),
                    text_for(roots, pid),
                );
                seq![view_with_kind(b, kind_spec(b, home, user))]
            },
            _ => seq![],
        }
    }
}

/// The socket records of a scan: TCP listeners, then UDP sockets when asked.
pub open spec fn scan_records(tcp_output: Seq<char>, udp_output: Option<Seq<char>>) -> Seq<
    LsofView,
> {
    lsof_output_spec(tcp_output, "TCP"@) + match udp_output {
        Some(u) => lsof_output_spec(u, "UDP"@),
        None => seq![],
    }
}

/// The merged socket records of a scan, whose pids `ps` and `lsof` are then
/// asked about.
pub fn socket_records(tcp_output: &str, udp_output: &Option<String>) -> (r: Vec<LsofRecord>)
    requires
        tags_are_ascii(tcp_output@),
        match udp_output {
            Some(u) => tags_are_ascii(u@),
            None => true,
        },
    ensures
        lsof_view(r@) == lsof_merge_spec(scan_records(tcp_output@, opt_view(*udp_output))),
{
    let mut records = parse_lsof_output(tcp_output, "TCP");
    match udp_output {
        Some(u) => {
            let mut more = parse_lsof_output(u.as_str(), "UDP");
            let ghost a = records@;
            let ghost b = more@;
            records.append(&mut more);
            assert(lsof_view(records@) =~= lsof_view(a) + lsof_view(b));
        },
        None => {
            assert(lsof_view(records@) =~= lsof_view(records@) + Seq::<LsofView>::empty());
        },
    }
    merge_by_pid(records)
}

/// The pids of the records that hold a socket, in order.
pub open spec fn pids_spec(rs: Seq<LsofView>) -> Seq<u32>
    decreases rs.len(),
{
    if rs.len() == 0 {
        seq![]
    } else {
        let r = rs.last();
        pids_spec(rs.drop_last()) + match r.pid {
            Some(p) => if r.bindings.len() > 0 {
                seq![p]
            } else {
                seq![]
            },
            None => seq![],
        }
    }
}

/// The pids `ps` and `lsof` are asked about: those of records holding a
/// socket, in order.
pub fn pids_to_inspect(records: &Vec<LsofRecord>) -> (r: Vec<u32>)
    ensures
        r@ == pids_spec(lsof_view(records@)),
{
    let ghost rv = lsof_view(records@);
    let mut r: Vec<u32> = Vec::new();
    let mut i: usize = 0;
    assert(rv.take(0) =~= Seq::<LsofView>::empty());
    while i < records.len()
        invariant
            i <= records.len(),
            rv == lsof_view(records@),
            r@ == pids_spec(rv.take(i as int)),
        decreases records.len() - i,
    {
        assert(rv.take(i + 1).drop_last() == rv.take(i as int));
        assert(rv.take(i + 1).last() == records@[i as int]@);
        let ghost before = r@;
        if records[i].bindings.len() > 0 {
            match records[i].pid {
                Some(p) => {
                    r.push(p);
                },
                None => {},
            }
        }
        assert(r@ =~= pids_spec(rv.take(i + 1)));
        i += 1;
    }
    assert(rv.take(records.len() as int) == rv);
    r
}

/// Builds the macOS scan result from the merged `lsof` records, the `ps`
/// facts and `lsof` paths per pid, the project root per pid, and the user
/// the scan runs as; in ascending order of primary port.
pub fn processes_from_records(
    records: &Vec<LsofRecord>,
    ps: &Vec<(u32, PsInfo)>,
    paths: &Vec<(u32, ProcessPaths)>,
    roots: &Vec<(u32, String)>,
    env: &UserEnv,
) -> (r: Vec<PortProcess>)
    ensures
        processes_view(r@) == sort_by_port(
            processes_spec(
                lsof_view(records@),
                ps_view(ps@),
                paths_view(paths@),
                pairs_view(roots@),
                env.home@,
                env.username@,
            ),
        ),
{
    let ghost rv = lsof_view(records@);
    let mut processes: Vec<PortProcess> = Vec::new();
    let mut i: usize = 0;
    assert(rv.take(0) =~= Seq::<LsofView>::empty());
    while i < records.len()
        invariant
            i <= records.len(),
            rv == lsof_view(records@),
            processes_view(processes@) == processes_spec(
                rv.take(i as int),
                ps_view(ps@),
                paths_view(paths@),
                pairs_view(roots@),
                env.home@,
                env.username@,
            ),
        decreases records.len() - i,
    {
        assert(rv.take(i + 1).drop_last() == rv.take(i as int));
        assert(rv.take(i + 1).last() == records@[i as int]@);
        let ghost before = processes@;
        let record = &records[i];
        match (record.pid, &record.name) {
            (Some(pid), Some(name)) => {
                if record.bindings.len() == 0 {
                    assert(processes_view(processes@) == processes_view(before) + Seq::<
                        ProcessView,
                    >::empty());
                } else {
                    let info = lookup_ps(ps, pid);
                    let where_ = lookup_paths(paths, pid);
                    let script_path = extract_script_path(info.command_line.as_str(), name.as_str());
                    let root = lookup_text(roots, pid);
                    let mut process = PortProcess {
                        pid,
                        name: name.clone(),
                        user: info.user,
                        ports: clone_bindings(&record.bindings),
                        executable_path: where_.executable_path,
                        script_path,
                        command_line: info.command_line,
                        working_directory: where_.working_directory,
                        project_root: root,
                        system_kind: SystemKind::User,
                        is_system_service: false,
                        uptime_seconds: info.uptime_seconds,
                    };
                    classify(&mut process, env);
                    processes.push(process);
                    assert(processes_view(processes@) == processes_view(before) + seq![process@]);
                }
            },
            _ => {
                assert(processes_view(processes@) == processes_view(before) + Seq::<
                    ProcessView,
                >::empty());
            },
        }
        i += 1;
    }
    assert(rv.take(records.len() as int) == rv);
    sort_by_primary_port(processes)
}

/// The `ps` entries read from a run of `ps` outputs, in order.
pub open spec fn ps_table(outputs: Seq<Seq<char>>) -> Seq<(u32, PsInfoView)>
    decreases outputs.len(),
{
    if outputs.len() == 0 {
        seq![]
    } else {
        ps_prepend(lines(outputs.last()), ps_table(outputs.drop_last()))
    }
}

/// The paths read from a run of `lsof -Fn -d cwd,txt` outputs, in order.
pub open spec fn paths_table(outputs: Seq<Seq<char>>) -> Seq<(u32, PathsView)>
    decreases outputs.len(),
{
    if outputs.len() == 0 {
        seq![]
    } else {
        paths_run(lines(outputs.last()), paths_table(outputs.drop_last())).map
    }
}

/// Whether every line of a `ps` output fits (see `ps_line_in_range`).
pub open spec fn ps_output_in_range(stdout: Seq<char>) -> bool {
    forall|i: int| 0 <= i < lines(stdout).len() ==> ps_line_in_range(#[trigger] lines(stdout)[i])
}

/// Whether the outputs of a scan can be read: every `lsof` output has ASCII
/// tags and every `ps` elapsed time fits in a `u64`.
pub open spec fn outputs_readable(
    tcp_output: Seq<char>,
    udp_output: Option<Seq<char>>,
    ps_outputs: Seq<Seq<char>>,
    path_outputs: Seq<Seq<char>>,
) -> bool {
    &&& tags_are_ascii(tcp_output)
    &&& match udp_output {
        Some(u) => tags_are_ascii(u),
        None => true,
    }
    &&& forall|i: int| 0 <= i < ps_outputs.len() ==> ps_output_in_range(#[trigger] ps_outputs[i])
    &&& forall|i: int| 0 <= i < path_outputs.len() ==> tags_are_ascii(#[trigger] path_outputs[i])
}

/// The result of a macOS scan: the `lsof` socket records of both outputs
/// merged per process, each with the `ps` facts and paths read for it and
/// its project root, classified, in ascending order of primary port.
pub open spec fn scan_spec(
    tcp_output: Seq<char>,
    udp_output: Option<Seq<char>>,
    ps_outputs: Seq<Seq<char>>,
    path_outputs: Seq<Seq<char>>,
    roots: Seq<(u32, Seq<char>)>,
    home: Seq<char>,
    user: Seq<char>,
) -> Seq<ProcessView> {
    sort_by_port(
        processes_spec(
            lsof_merge_spec(scan_records(tcp_output, udp_output)),
            ps_table(ps_outputs),
            paths_table(path_outputs),
            roots,
            home,
            user,
        ),
    )
}

/// Reads the `ps` facts of a run of `ps` outputs (one per batch of pids).
pub fn read_ps_outputs(outputs: &Vec<String>) -> (r: Vec<(u32, PsInfo)>)
    requires
        forall|i: int| 0 <= i < outputs.len() ==> ps_output_in_range(#[trigger] outputs@[i]@),
    ensures
        ps_view(r@) == ps_table(crate::cli::strings_view(outputs@)),
{
    let ghost outs = crate::cli::strings_view(outputs@);
    let mut r: Vec<(u32, PsInfo)> = Vec::new();
    let mut i: usize = 0;
    assert(outs.take(0) =~= Seq::<Seq<char>>::empty());
    while i < outputs.len()
        invariant
            i <= outputs.len(),
            outs == crate::cli::strings_view(outputs@),
            forall|j: int| 0 <= j < outputs.len() ==> ps_output_in_range(#[trigger] outputs@[j]@),
            ps_view(r@) == ps_table(outs.take(i as int)),
        decreases outputs.len() - i,
    {
        assert(outs.take(i + 1).drop_last() == outs.take(i as int));
        assert(outs.take(i + 1).last() == outputs@[i as int]@);
        assert(ps_output_in_range(outputs@[i as int]@));
        parse_ps_output(outputs[i].as_str(), &mut r);
        i += 1;
    }
    assert(outs.take(outputs.len() as int) == outs);
    r
}

/// Reads the paths of a run of `lsof -Fn -d cwd,txt` outputs (one per batch
/// of pids that could be asked).
pub fn read_path_outputs(outputs: &Vec<String>) -> (r: Vec<(u32, ProcessPaths)>)
    requires
        forall|i: int| 0 <= i < outputs.len() ==> tags_are_ascii(#[trigger] outputs@[i]@),
    ensures
        paths_view(r@) == paths_table(crate::cli::strings_view(outputs@)),
{
    let ghost outs = crate::cli::strings_view(outputs@);
    let mut r: Vec<(u32, ProcessPaths)> = Vec::new();
    let mut i: usize = 0;
    assert(outs.take(0) =~= Seq::<Seq<char>>::empty());
    assert(paths_view(r@) =~= Seq::<(u32, PathsView)>::empty());
    while i < outputs.len()
        invariant
            i <= outputs.len(),
            outs == crate::cli::strings_view(outputs@),
            forall|j: int| 0 <= j < outputs.len() ==> tags_are_ascii(#[trigger] outputs@[j]@),
            paths_view(r@) == paths_table(outs.take(i as int)),
        decreases outputs.len() - i,
    {
        assert(outs.take(i + 1).drop_last() == outs.take(i as int));
        assert(outs.take(i + 1).last() == outputs@[i as int]@);
        assert(tags_are_ascii(outputs@[i as int]@));
        parse_lsof_paths(outputs[i].as_str(), &mut r);
        i += 1;
    }
    assert(outs.take(outputs.len() as int) == outs);
    r
}

/// Builds the scan result from the outputs of `lsof -F pcn` (`udp_output`
/// is present when UDP sockets were asked for), of `ps` and of `lsof -Fn
/// -d cwd,txt` (one per batch), the project root found per pid, and the
/// user the scan runs as.
pub fn scan_listening_ports(
    tcp_output: &str,
    udp_output: &Option<String>,
    ps_outputs: &Vec<String>,
    path_outputs: &Vec<String>,
    roots: &Vec<(u32, String)>,
    env: &UserEnv,
) -> (r: Vec<PortProcess>)
    requires
        outputs_readable(
            tcp_output@,
            opt_view(*udp_output),
            crate::cli::strings_view(ps_outputs@),
            crate::cli::strings_view(path_outputs@),
        ),
    ensures
        processes_view(r@) == scan_spec(
            tcp_output@,
            opt_view(*udp_output),
            crate::cli::strings_view(ps_outputs@),
            crate::cli::strings_view(path_outputs@),
            pairs_view(roots@),
            env.home@,
            env.username@,
        ),
{
    proof {
        let ps = crate::cli::strings_view(ps_outputs@);
        let po = crate::cli::strings_view(path_outputs@);
        assert forall|i: int| 0 <= i < ps_outputs.len() implies ps_output_in_range(
            #[trigger] ps_outputs@[i]@,
        ) by {
            assert(ps[i] == ps_outputs@[i]@);
        }
        assert forall|i: int| 0 <= i < path_outputs.len() implies tags_are_ascii(
            #[trigger] path_outputs@[i]@,
        ) by {
            assert(po[i] == path_outputs@[i]@);
        }
    }
    let records = socket_records(tcp_output, udp_output);
    let ps = read_ps_outputs(ps_outputs);
    let paths = read_path_outputs(path_outputs);
    processes_from_records(&records, &ps, &paths, roots, env)
}

/// Merging `lsof` records lists each process once, and only processes
/// with a pid.
pub proof fn law_lsof_one_record_per_pid(rs: Seq<LsofView>)
    ensures
        forall|i: int, j: int|
            0 <= i < j < lsof_merge_spec(rs).len() ==> lsof_merge_spec(rs)[i].pid
                != lsof_merge_spec(rs)[j].pid,
        forall|i: int| 0 <= i < lsof_merge_spec(rs).len() ==> lsof_merge_spec(rs)[i].pid is Some,
    decreases rs.len(),
{
    if rs.len() > 0 {
        law_lsof_one_record_per_pid(rs.drop_last());
        let prev = lsof_merge_spec(rs.drop_last());
        if let Some(p) = rs.last().pid {
            lemma_lsof_pid_index_bounds(prev, p);
        }
    }
}

/// Merging `lsof` records loses no socket of a process with a pid.
pub proof fn law_lsof_keeps_every_socket(rs: Seq<LsofView>, i: int, b: BindingView)
    requires
        0 <= i < rs.len(),
        rs[i].pid is Some,
        rs[i].bindings.contains(b),
    ensures
        exists|k: int|
            0 <= k < lsof_merge_spec(rs).len() && lsof_merge_spec(rs)[k].pid == rs[i].pid
                && lsof_merge_spec(rs)[k].bindings.contains(b),
    decreases rs.len(),
{
    let m = lsof_merge_spec(rs);
    let prev = lsof_merge_spec(rs.drop_last());
    let r = rs.last();
    if let Some(p) = r.pid {
        lemma_lsof_pid_index_bounds(prev, p);
    }
    if i < rs.len() - 1 {
        assert(rs.drop_last()[i] == rs[i]);
        law_lsof_keeps_every_socket(rs.drop_last(), i, b);
        let k = choose|k: int|
            0 <= k < prev.len() && prev[k].pid == rs[i].pid && prev[k].bindings.contains(b);
        if let Some(p) = r.pid {
            match lsof_pid_index(prev, p) {
                Some(n) => {
                    if n == k {
                        lemma_merge_bindings_contains(prev[k].bindings, r.bindings, b);
                    }
                },
                None => {},
            }
        }
        assert(0 <= k < m.len() && m[k].pid == rs[i].pid && m[k].bindings.contains(b));
    } else {
        let p = r.pid->Some_0;
        match lsof_pid_index(prev, p) {
            Some(n) => {
                lemma_merge_bindings_contains(prev[n].bindings, r.bindings, b);
                assert(0 <= n < m.len() && m[n].pid == rs[i].pid && m[n].bindings.contains(b));
            },
            None => {
                let n = prev.len() as int;
                assert(m[n] == r);
                assert(0 <= n < m.len() && m[n].pid == rs[i].pid && m[n].bindings.contains(b));
            },
        }
    }
}

/// The path the project root of `pid`'s process (named `name`) is searched
/// from, given the `ps` facts and `lsof` paths read: its working directory,
/// else the script it runs, else its executable.
pub fn root_probe(
    pid: u32,
    name: &str,
    ps: &Vec<(u32, PsInfo)>,
    paths: &Vec<(u32, ProcessPaths)>,
) -> (r: String)
    ensures
        r@ == crate::scanner::probe_spec(
            paths_entry(paths_view(paths@), pid).working_directory,
            script_path_spec(ps_for(ps_view(ps@), pid).command_line, name@),
            paths_entry(paths_view(paths@), pid).executable_path,
        ),
{
    let info = lookup_ps(ps, pid);
    let where_ = lookup_paths(paths, pid);
    let script = extract_script_path(info.command_line.as_str(), name);
    crate::scanner::project_root_probe(&where_.working_directory, &script, &where_.executable_path)
}

} // verus!
