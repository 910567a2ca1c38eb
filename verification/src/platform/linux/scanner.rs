//! Reading `ss -H -tlnp` / `ss -H -ulnp` output and the `/proc` files of
//! the listening processes.
use vstd::prelude::*;

use crate::classifier::{SystemKind, UserEnv};
use crate::platform::linux::classifier::{classify, kind_spec};
use crate::platform::shared::{
    address_port_spec, extract_script_path, parse_address_port, script_path_spec,
};
use crate::scanner::{
    add_bindings, bindings_view, clone_binding, clone_bindings, lemma_merge_bindings_contains,
    lookup_text, merge_bindings, pairs_view, processes_view, sort_by_port, sort_by_primary_port,
    text_for, view_with_kind, BindingView, PortBinding, PortProcess, ProcessView,
};
use crate::text::{
    chars_of, find, find_vec, lines, lines_vec, parse_u32, parse_u64, parse_uint, rfind, rfind_vec,
    seqs, slice, split_all, split_all_vec, starts_with, starts_with_str, string_from, string_of,
    trim, trim_vec, words, words_vec,
};

verus! {

/// The sockets one process owns, as one `ss` line reports them.
#[derive(Debug, Clone)]
pub struct SocketRecord {
    pub pid: u32,
    pub name: String,
    pub bindings: Vec<PortBinding>,
}

pub struct RecordView {
    pub pid: u32,
    pub name: Seq<char>,
    pub bindings: Seq<BindingView>,
}

impl View for SocketRecord {
    type V = RecordView;

    open spec fn view(&self) -> RecordView {
        RecordView { pid: self.pid, name: self.name@, bindings: bindings_view(self.bindings@) }
    }
}

/// The plain values of a list of socket records.
pub open spec fn records_view(v: Seq<SocketRecord>) -> Seq<RecordView> {
    v.map_values(|r: SocketRecord| r@)
}

/// The plain values of a list of owners.
pub open spec fn owners_view(v: Seq<(u32, String)>) -> Seq<(u32, Seq<char>)> {
    v.map_values(|o: (u32, String)| (o.0, o.1@))
}

// ---------------------------------------------------------------------------
// users:(("name",pid=N,fd=M),...)
// ---------------------------------------------------------------------------

/// `s` up to its first `,` or `)`.
pub open spec fn until_comma_paren(s: Seq<char>) -> Seq<char>
    decreases s.len(),
{
    if s.len() == 0 {
        s
    } else if s[0] == ',' || s[0] == ')' {
        seq![]
    } else {
        seq![s[0]] + until_comma_paren(s.drop_first())
    }
}

/// The owner a `("name",pid=N,...` segment names: the text before its first
/// `"`, and the number between the first `pid=` and the next `,` or `)`
/// (or the next `pid=`). `None` when there is no `pid=` or no valid number.
pub open spec fn owner_of(seg: Seq<char>) -> Option<(u32, Seq<char>)> {
    let pieces = split_all(seg, "pid="@);
    if pieces.len() >= 2 {
        match parse_uint(until_comma_paren(pieces[1]), 4294967295) {
            Some(pid) => Some((pid as u32, split_all(seg, "\""@)[0])),
            None => None,
        }
    } else {
        None
    }
}

pub open spec fn owners_of_segments(segs: Seq<Seq<char>>) -> Seq<(u32, Seq<char>)>
    decreases segs.len(),
{
    if segs.len() == 0 {
        seq![]
    } else {
        owners_of_segments(segs.drop_last()) + match owner_of(segs.last()) {
            Some(o) => seq![o],
            None => seq![],
        }
    }
}

/// Every owner listed in a `users:(...)` field, in order.
pub open spec fn owners_spec(users_part: Seq<char>) -> Seq<(u32, Seq<char>)> {
    owners_of_segments(split_all(users_part, "(\""@).skip(1))
}

fn until_comma_paren_vec(s: &Vec<char>) -> (r: Vec<char>)
    ensures
        r@ == until_comma_paren(s@),
{
    let mut j: usize = 0;
    assert(s@.skip(0) == s@);
    assert(s@.take(0) =~= Seq::<char>::empty());
    while j < s.len() && s[j] != ',' && s[j] != ')'
        invariant
            j <= s.len(),
            until_comma_paren(s@) == s@.take(j as int) + until_comma_paren(s@.skip(j as int)),
        decreases s.len() - j,
    {
        assert(s@.skip(j as int).drop_first() == s@.skip(j + 1));
        assert(s@.take(j + 1) == s@.take(j as int) + seq![s@[j as int]]);
        j += 1;
    }
    if j == s.len() {
        assert(s@.take(j as int) == s@);
    }
    slice(s, 0, j)
}

fn owner_of_vec(seg: &Vec<char>) -> (r: Option<(u32, String)>)
    ensures
        match r {
            Some(o) => owner_of(seg@) == Some((o.0, o.1@)),
            None => owner_of(seg@) is None,
        },
{
    let pid_pat = chars_of("pid=");
    let quote = chars_of("\"");
    proof {
        reveal_strlit("pid=");
        reveal_strlit("\"");
    }
    let pieces = split_all_vec(seg, &pid_pat);
    if pieces.len() >= 2 {
        let digits = until_comma_paren_vec(&pieces[1]);
        match parse_u32(&digits) {
            Some(pid) => {
                let names = split_all_vec(seg, &quote);
                proof {
                    crate::text::lemma_split_all_nonempty(seg@, quote@);
                }
                Some((pid, string_of(&names[0])))
            },
            None => None,
        }
    } else {
        None
    }
}

fn owners_of_chars(users_part: &Vec<char>) -> (r: Vec<(u32, String)>)
    ensures
        owners_view(r@) == owners_spec(users_part@),
{
    let pat = chars_of("(\"");
    proof {
        reveal_strlit("(\"");
    }
    let segs = split_all_vec(users_part, &pat);
    proof {
        crate::text::lemma_split_all_nonempty(users_part@, pat@);
    }
    let ghost all = seqs(segs@);
    let mut owners: Vec<(u32, String)> = Vec::new();
    let mut k: usize = 1;
    assert(all.subrange(1, 1) =~= Seq::<Seq<char>>::empty());
    while k < segs.len()
        invariant
            1 <= k <= segs.len(),
            all == seqs(segs@),
            owners_view(owners@) == owners_of_segments(all.subrange(1, k as int)),
        decreases segs.len() - k,
    {
        assert(all.subrange(1, k + 1).drop_last() == all.subrange(1, k as int));
        assert(all.subrange(1, k + 1).last() == segs@[k as int]@);
        let ghost before = owners@;
        match owner_of_vec(&segs[k]) {
            Some(o) => {
                owners.push(o);
                assert(owners_view(owners@) == owners_view(before) + seq![(o.0, o.1@)]);
            },
            None => {
                assert(owners_view(owners@) == owners_view(before) + Seq::<
                    (u32, Seq<char>),
                >::empty());
            },
        }
        k += 1;
    }
    assert(all.subrange(1, segs.len() as int) == all.skip(1));
    owners
}

/// Every `("name",pid=N,fd=M)` owner in a `users:(...)` field.
pub fn parse_ss_owners(users_part: &str) -> (r: Vec<(u32, String)>)
    ensures
        owners_view(r@) == owners_spec(users_part@),
{
    owners_of_chars(&chars_of(users_part))
}

// ---------------------------------------------------------------------------
// One ss line
// ---------------------------------------------------------------------------

/// The owners and the local address of an `ss` line. Without a `users:`
/// field the socket belongs to an unknown owner (pid 0); a `users:` field
/// that names no owner, or fewer than two columns before it, gives `None`.
/// The local address is the second-to-last column before `users:`.
pub open spec fn ss_line_spec(line: Seq<char>) -> Option<(Seq<(u32, Seq<char>)>, Seq<char>)> {
    let before = match find(line, "users:"@) {
        Some(idx) => trim(line.take(idx)),
        None => trim(line),
    };
    let owners = match find(line, "users:"@) {
        Some(idx) => owners_spec(line.skip(idx)),
        None => seq![(0u32, "unknown"@)],
    };
    let parts = words(before);
    if find(line, "users:"@) is Some && owners.len() == 0 {
        None
    } else if parts.len() < 2 {
        None
    } else {
        Some((owners, parts[parts.len() - 2]))
    }
}

fn ss_line_chars(l: &Vec<char>) -> (r: Option<(Vec<(u32, String)>, Vec<char>)>)
    ensures
        match r {
            Some(x) => ss_line_spec(l@) == Some((owners_view(x.0@), x.1@)),
            None => ss_line_spec(l@) is None,
        },
{
    let users_pat = chars_of("users:");
    let (before, owners) = match find_vec(l, &users_pat) {
        Some(idx) => {
            proof {
                crate::text::lemma_find_from(l@, users_pat@, 0);
            }
            let before = trim_vec(&slice(l, 0, idx));
            let owners = owners_of_chars(&slice(l, idx, l.len()));
            if owners.len() == 0 {
                return None;
            }
            (before, owners)
        },
        None => {
            let before = trim_vec(l);
            let owners = vec![(0u32, string_from("unknown"))];
            assert(owners_view(owners@) == seq![(0u32, "unknown"@)]);
            (before, owners)
        },
    };
    let parts = words_vec(&before);
    if parts.len() < 2 {
        return None;
    }
    let local = parts[parts.len() - 2].clone();
    Some((owners, local))
}

/// Splits an `ss` line into its owners and its local address.
pub fn parse_ss_line(line: &str) -> (r: Option<(Vec<(u32, String)>, String)>)
    ensures
        match r {
            Some(x) => ss_line_spec(line@) == Some((owners_view(x.0@), x.1@)),
            None => ss_line_spec(line@) is None,
        },
{
    let l = chars_of(line);
    match ss_line_chars(&l) {
        Some((owners, local)) => Some((owners, string_of(&local))),
        None => None,
    }
}

// ---------------------------------------------------------------------------
// Whole ss output
// ---------------------------------------------------------------------------

/// One record per owner, each with the line's single binding.
pub open spec fn records_for_owners(owners: Seq<(u32, Seq<char>)>, b: BindingView) -> Seq<
    RecordView,
> {
    owners.map_values(
        |o: (u32, Seq<char>)| RecordView { pid: o.0, name: o.1, bindings: seq![b] },
    )
}

/// The records one line of output yields: none for a blank or unparsable
/// line, else one per owner.
pub open spec fn ss_line_records(line: Seq<char>, protocol: Seq<char>) -> Seq<RecordView> {
    let l = trim(line);
    if l.len() == 0 {
        seq![]
    } else {
        match ss_line_spec(l) {
            Some((owners, local)) => match address_port_spec(local, protocol) {
                Some(b) => records_for_owners(owners, b),
                None => seq![],
            },
            None => seq![],
        }
    }
}

pub open spec fn ss_records(ls: Seq<Seq<char>>, protocol: Seq<char>) -> Seq<RecordView>
    decreases ls.len(),
{
    if ls.len() == 0 {
        seq![]
    } else {
        ss_records(ls.drop_last(), protocol) + ss_line_records(ls.last(), protocol)
    }
}

/// The records of a whole `ss` output, line by line, in order.
pub open spec fn ss_output_spec(stdout: Seq<char>, protocol: Seq<char>) -> Seq<RecordView> {
    ss_records(lines(stdout), protocol)
}

/// Parses the output of `ss`; pre-forked servers that share one socket get
/// one record per owning process.
pub fn parse_ss_output(stdout: &str, protocol: &str) -> (r: Vec<SocketRecord>)
    ensures
        records_view(r@) == ss_output_spec(stdout@, protocol@),
{
    let all = lines_vec(&chars_of(stdout));
    let ghost ls = seqs(all@);
    let mut records: Vec<SocketRecord> = Vec::new();
    let mut i: usize = 0;
    assert(ls.take(0) =~= Seq::<Seq<char>>::empty());
    while i < all.len()
        invariant
            i <= all.len(),
            ls == seqs(all@),
            ls == lines(stdout@),
            records_view(records@) == ss_records(ls.take(i as int), protocol@),
        decreases all.len() - i,
    {
        assert(ls.take(i + 1).drop_last() == ls.take(i as int));
        assert(ls.take(i + 1).last() == all@[i as int]@);
        let ghost before = records@;
        let l = trim_vec(&all[i]);
        if l.len() > 0 {
            match ss_line_chars(&l) {
                Some((owners, local)) => {
                    let local_s = string_of(&local);
                    match parse_address_port(local_s.as_str(), protocol) {
                        Some(binding) => {
                            let mut k: usize = 0;
                            while k < owners.len()
                                invariant
                                    k <= owners.len(),
                                    records_view(records@) == records_view(before)
                                        + records_for_owners(owners_view(owners@), binding@).take(
                                        k as int,
                                    ),
                                decreases owners.len() - k,
                            {
                                let b = clone_binding(&binding);
                                let rec = SocketRecord {
                                    pid: owners[k].0,
                                    name: owners[k].1.clone(),
                                    bindings: vec![b],
                                };
                                assert(bindings_view(rec.bindings@) == seq![binding@]);
                                let ghost mid = records@;
                                records.push(rec);
                                assert(records_view(records@) == records_view(mid) + seq![rec@]);
                                assert(records_for_owners(owners_view(owners@), binding@).take(
                                    k + 1,
                                ) == records_for_owners(owners_view(owners@), binding@).take(
                                    k as int,
                                ) + seq![rec@]);
                                k += 1;
                            }
                            assert(records_for_owners(owners_view(owners@), binding@).take(
                                owners.len() as int,
                            ) == records_for_owners(owners_view(owners@), binding@));
                        },
                        None => {
                            assert(records_view(records@) == records_view(before) + Seq::<
                                RecordView,
                            >::empty());
                        },
                    }
                },
                None => {
                    assert(records_view(records@) == records_view(before) + Seq::<
                        RecordView,
                    >::empty());
                },
            }
        } else {
            assert(records_view(records@) == records_view(before) + Seq::<RecordView>::empty());
        }
        i += 1;
    }
    assert(ls.take(all.len() as int) == ls);
    records
}


// ---------------------------------------------------------------------------
// Merging records of the same process
// ---------------------------------------------------------------------------

/// Position of the first record of process `pid`.
pub open spec fn pid_index(rs: Seq<RecordView>, pid: u32) -> Option<int>
    decreases rs.len(),
{
    if rs.len() == 0 {
        None
    } else {
        match pid_index(rs.drop_last(), pid) {
            Some(k) => Some(k),
            None => if rs.last().pid == pid {
                Some(rs.len() - 1)
            } else {
                None
            },
        }
    }
}

/// `r` folded into the record `existing` of the same process: the name is
/// kept unless empty, and the new bindings are added.
pub open spec fn absorb(existing: RecordView, r: RecordView) -> RecordView {
    RecordView {
        pid: existing.pid,
        name: if existing.name.len() == 0 {
            r.name
        } else {
            existing.name
        },
        bindings: merge_bindings(existing.bindings, r.bindings),
    }
}

pub open spec fn merge_step(keyed: Seq<RecordView>, r: RecordView) -> Seq<RecordView> {
    match pid_index(keyed, r.pid) {
        Some(k) => keyed.update(k, absorb(keyed[k], r)),
        None => keyed.push(r),
    }
}

/// The records of known owners, one per process, in order of first
/// appearance.
pub open spec fn keyed_records(rs: Seq<RecordView>) -> Seq<RecordView>
    decreases rs.len(),
{
    if rs.len() == 0 {
        seq![]
    } else {
        let prev = keyed_records(rs.drop_last());
        if rs.last().pid == 0 {
            prev
        } else {
            merge_step(prev, rs.last())
        }
    }
}

/// The records without a known owner (pid 0), in order.
pub open spec fn ownerless_records(rs: Seq<RecordView>) -> Seq<RecordView>
    decreases rs.len(),
{
    if rs.len() == 0 {
        seq![]
    } else {
        ownerless_records(rs.drop_last()) + if rs.last().pid == 0 {
            seq![rs.last()]
        } else {
            seq![]
        }
    }
}

/// One record per known process, then every ownerless record unmerged.
pub open spec fn merge_spec(rs: Seq<RecordView>) -> Seq<RecordView> {
    keyed_records(rs) + ownerless_records(rs)
}

/// A copy of a socket record.
pub fn clone_record(r: &SocketRecord) -> (c: SocketRecord)
    ensures
        c@ == r@,
{
    SocketRecord { pid: r.pid, name: r.name.clone(), bindings: clone_bindings(&r.bindings) }
}

fn pid_position(keyed: &Vec<SocketRecord>, pid: u32) -> (r: Option<usize>)
    ensures
        crate::text::opt_int(r) == pid_index(records_view(keyed@), pid),
{
    let ghost rv = records_view(keyed@);
    let mut i: usize = 0;
    assert(rv.take(0) =~= Seq::<RecordView>::empty());
    while i < keyed.len()
        invariant
            i <= keyed.len(),
            rv == records_view(keyed@),
            pid_index(rv.take(i as int), pid) is None,
        decreases keyed.len() - i,
    {
        assert(rv.take(i + 1).drop_last() == rv.take(i as int));
        if keyed[i].pid == pid {
            proof {
                lemma_pid_index_prefix(rv, i as int + 1, pid);
            }
            return Some(i);
        }
        i += 1;
    }
    assert(rv.take(keyed.len() as int) == rv);
    None
}

proof fn lemma_pid_index_prefix(rs: Seq<RecordView>, n: int, pid: u32)
    requires
        0 <= n <= rs.len(),
        pid_index(rs.take(n), pid) is Some,
    ensures
        pid_index(rs, pid) == pid_index(rs.take(n), pid),
    decreases rs.len() - n,
{
    if n < rs.len() {
        assert(rs.take(n + 1).drop_last() == rs.take(n));
        lemma_pid_index_prefix(rs, n + 1, pid);
    } else {
        assert(rs.take(n) == rs);
    }
}

proof fn lemma_pid_index_bounds(rs: Seq<RecordView>, pid: u32)
    ensures
        pid_index(rs, pid) matches Some(k) ==> 0 <= k < rs.len() && rs[k].pid == pid,
        pid_index(rs, pid) is None ==> forall|j: int| 0 <= j < rs.len() ==> rs[j].pid != pid,
    decreases rs.len(),
{
    if rs.len() > 0 {
        lemma_pid_index_bounds(rs.drop_last(), pid);
        assert forall|j: int| 0 <= j < rs.len() - 1 implies rs[j] == rs.drop_last()[j] by {}
    }
}

/// Merges the records of each process into one, keeping each socket once.
/// Ownerless sockets (pid 0, the owner unknown) are never merged.
pub fn merge_by_pid(records: Vec<SocketRecord>) -> (r: Vec<SocketRecord>)
    ensures
        records_view(r@) == merge_spec(records_view(records@)),
{
    let ghost rv = records_view(records@);
    let mut keyed: Vec<SocketRecord> = Vec::new();
    let mut ownerless: Vec<SocketRecord> = Vec::new();
    let mut i: usize = 0;
    assert(rv.take(0) =~= Seq::<RecordView>::empty());
    while i < records.len()
        invariant
            i <= records.len(),
            rv == records_view(records@),
            records_view(keyed@) == keyed_records(rv.take(i as int)),
            records_view(ownerless@) == ownerless_records(rv.take(i as int)),
        decreases records.len() - i,
    {
        assert(rv.take(i + 1).drop_last() == rv.take(i as int));
        assert(rv.take(i + 1).last() == records@[i as int]@);
        let record = clone_record(&records[i]);
        if record.pid == 0 {
            let ghost before = ownerless@;
            ownerless.push(record);
            assert(records_view(ownerless@) == records_view(before) + seq![record@]);
        } else {
            match pid_position(&keyed, record.pid) {
                Some(k) => {
                    proof {
                        lemma_pid_index_bounds(records_view(keyed@), record.pid);
                    }
                    let ghost before = records_view(keyed@);
                    let mut existing = keyed.remove(k);
                    assert(existing@ == before[k as int]);
                    if existing.name.as_str().is_empty() {
                        existing.name = record.name.clone();
                    }
                    add_bindings(&mut existing.bindings, &record.bindings);
                    assert(existing@ == absorb(before[k as int], record@));
                    keyed.insert(k, existing);
                    assert(records_view(keyed@) =~= before.update(
                        k as int,
                        absorb(before[k as int], record@),
                    ));
                },
                None => {
                    let ghost before = keyed@;
                    keyed.push(record);
                    assert(records_view(keyed@) == records_view(before).push(record@));
                },
            }
        }
        i += 1;
    }
    assert(rv.take(records.len() as int) == rv);
    let ghost k1 = keyed@;
    let ghost o1 = ownerless@;
    keyed.append(&mut ownerless);
    assert(records_view(keyed@) =~= records_view(k1) + records_view(o1));
    keyed
}


/// After merging, every known process has exactly one record, and none has
/// pid 0, which stands for an unknown owner.
pub proof fn law_merge_one_record_per_pid(rs: Seq<RecordView>)
    ensures
        forall|i: int, j: int|
            0 <= i < j < keyed_records(rs).len() ==> keyed_records(rs)[i].pid != keyed_records(
                rs,
            )[j].pid,
        forall|i: int| 0 <= i < keyed_records(rs).len() ==> keyed_records(rs)[i].pid != 0,
    decreases rs.len(),
{
    if rs.len() > 0 {
        law_merge_one_record_per_pid(rs.drop_last());
        let prev = keyed_records(rs.drop_last());
        let r = rs.last();
        if r.pid != 0 {
            lemma_pid_index_bounds(prev, r.pid);
        }
    }
}

/// Merging loses no socket: each binding of each record of a known process
/// is held by the merged record of that process.
pub proof fn law_merge_keeps_every_socket(rs: Seq<RecordView>, i: int, b: BindingView)
    requires
        0 <= i < rs.len(),
        rs[i].pid != 0,
        rs[i].bindings.contains(b),
    ensures
        exists|k: int|
            0 <= k < keyed_records(rs).len() && keyed_records(rs)[k].pid == rs[i].pid
                && keyed_records(rs)[k].bindings.contains(b),
    decreases rs.len(),
{
    let prev = keyed_records(rs.drop_last());
    let r = rs.last();
    if r.pid != 0 {
        lemma_pid_index_bounds(prev, r.pid);
    }
    if i < rs.len() - 1 {
        assert(rs.drop_last()[i] == rs[i]);
        law_merge_keeps_every_socket(rs.drop_last(), i, b);
        let k = choose|k: int|
            0 <= k < prev.len() && prev[k].pid == rs[i].pid && prev[k].bindings.contains(b);
        if r.pid != 0 {
            match pid_index(prev, r.pid) {
                Some(m) => {
                    if m == k {
                        lemma_merge_bindings_contains(prev[k].bindings, r.bindings, b);
                    }
                },
                None => {},
            }
        }
        assert(0 <= k < keyed_records(rs).len() && keyed_records(rs)[k].pid == rs[i].pid
            && keyed_records(rs)[k].bindings.contains(b));
    } else {
        match pid_index(prev, r.pid) {
            Some(m) => {
                lemma_merge_bindings_contains(prev[m].bindings, r.bindings, b);
                assert(0 <= m < keyed_records(rs).len() && keyed_records(rs)[m].pid == rs[i].pid
                    && keyed_records(rs)[m].bindings.contains(b));
            },
            None => {
                let k = prev.len() as int;
                assert(keyed_records(rs)[k] == r);
                assert(0 <= k < keyed_records(rs).len() && keyed_records(rs)[k].pid == rs[i].pid
                    && keyed_records(rs)[k].bindings.contains(b));
            },
        }
    }
}


// ---------------------------------------------------------------------------
// /proc files
// ---------------------------------------------------------------------------

/// `/proc/<pid>/cmdline` as one line: NUL separators become spaces, and the
/// result is trimmed.
pub open spec fn cmdline_spec(raw: Seq<char>) -> Seq<char> {
    trim(raw.map_values(|c: char| if c == '\0' { ' ' } else { c }))
}

/// Reads `/proc/<pid>/cmdline` (see `cmdline_spec`).
pub fn cmdline_text(raw: &str) -> (r: String)
    ensures
        r@ == cmdline_spec(raw@),
{
    let v = chars_of(raw);
    let mut w: Vec<char> = Vec::new();
    let mut i: usize = 0;
    while i < v.len()
        invariant
            i <= v.len(),
            w@ == v@.take(i as int).map_values(|c: char| if c == '\0' { ' ' } else { c }),
        decreases v.len() - i,
    {
        let c = v[i];
        w.push(if c == '\0' { ' ' } else { c });
        assert(v@.take(i + 1) == v@.take(i as int).push(c));
        assert(w@ =~= v@.take(i + 1).map_values(|c: char| if c == '\0' { ' ' } else { c }));
        i += 1;
    }
    assert(v@.take(v.len() as int) == v@);
    string_of(&trim_vec(&w))
}

/// The uid a `Uid:` line of `/proc/<pid>/status` starts with, and its text.
pub open spec fn uid_line(line: Seq<char>) -> Option<(u32, Seq<char>)> {
    if starts_with(line, "Uid:"@) {
        let w = words(line.skip(4));
        let t = trim(
            if w.len() > 0 {
                w[0]
            } else {
                seq![]
            },
        );
        match parse_uint(t, 4294967295) {
            Some(n) => Some((n as u32, t)),
            None => None,
        }
    } else {
        None
    }
}

/// The uid of the first `Uid:` line that holds a valid one.
pub open spec fn first_uid(ls: Seq<Seq<char>>) -> Option<(u32, Seq<char>)>
    decreases ls.len(),
{
    if ls.len() == 0 {
        None
    } else {
        match uid_line(ls[0]) {
            Some(x) => Some(x),
            None => first_uid(ls.drop_first()),
        }
    }
}

/// The real uid of the first `Uid:` line that carries a valid one.
pub fn status_uid(status: &str) -> (r: Option<(u32, String)>)
    ensures
        match r {
            Some(x) => first_uid(lines(status@)) == Some((x.0, x.1@)),
            None => first_uid(lines(status@)) is None,
        },
{
    let ls = lines_vec(&chars_of(status));
    let ghost all = seqs(ls@);
    proof {
        reveal_strlit("Uid:");
    }
    let mut i: usize = 0;
    assert(all.skip(0) == all);
    while i < ls.len()
        invariant
            i <= ls.len(),
            all == seqs(ls@),
            all == lines(status@),
            first_uid(all) == first_uid(all.skip(i as int)),
        decreases ls.len() - i,
    {
        let line = &ls[i];
        assert(all.skip(i as int)[0] == line@);
        proof {
            reveal_strlit("Uid:");
        }
        if starts_with_str(line, "Uid:") {
            let rest = slice(line, 4, line.len());
            let w = words_vec(&rest);
            let first = if w.len() > 0 {
                w[0].clone()
            } else {
                Vec::new()
            };
            let t = trim_vec(&first);
            match parse_u32(&t) {
                Some(n) => {
                    return Some((n, string_of(&t)));
                },
                None => {},
            }
        }
        assert(all.skip(i as int).drop_first() == all.skip(i + 1));
        i += 1;
    }
    None
}

/// The user name a line of `/etc/passwd` gives for `uid`.
pub open spec fn passwd_line_user(line: Seq<char>, uid: u32) -> Option<Seq<char>> {
    let parts = split_all(line, ":"@);
    if parts.len() >= 3 {
        match parse_uint(parts[2], 4294967295) {
            Some(n) => if n == uid {
                Some(parts[0])
            } else {
                None
            },
            None => None,
        }
    } else {
        None
    }
}

/// The name of the first `/etc/passwd` line with the uid.
pub open spec fn passwd_lookup(ls: Seq<Seq<char>>, uid: u32) -> Option<Seq<char>>
    decreases ls.len(),
{
    if ls.len() == 0 {
        None
    } else {
        match passwd_line_user(ls[0], uid) {
            Some(n) => Some(n),
            None => passwd_lookup(ls.drop_first(), uid),
        }
    }
}

/// The name of the first `/etc/passwd` entry with the given uid.
pub fn passwd_user(passwd: &str, uid: u32) -> (r: Option<String>)
    ensures
        crate::scanner::opt_view(r) == passwd_lookup(lines(passwd@), uid),
{
    let ls = lines_vec(&chars_of(passwd));
    let ghost all = seqs(ls@);
    let colon = chars_of(":");
    proof {
        reveal_strlit(":");
    }
    let mut i: usize = 0;
    assert(all.skip(0) == all);
    while i < ls.len()
        invariant
            i <= ls.len(),
            all == seqs(ls@),
            all == lines(passwd@),
            colon@ == ":"@,
            colon@.len() == 1,
            passwd_lookup(all, uid) == passwd_lookup(all.skip(i as int), uid),
        decreases ls.len() - i,
    {
        assert(all.skip(i as int)[0] == ls@[i as int]@);
        let parts = split_all_vec(&ls[i], &colon);
        if parts.len() >= 3 {
            match parse_u32(&parts[2]) {
                Some(n) => {
                    if n == uid {
                        return Some(string_of(&parts[0]));
                    }
                },
                None => {},
            }
        }
        assert(all.skip(i as int).drop_first() == all.skip(i + 1));
        i += 1;
    }
    None
}

/// The user name `getent passwd <uid>` prints: its first field, trimmed;
/// none when that is empty.
pub open spec fn getent_spec(stdout: Seq<char>) -> Option<Seq<char>> {
    let name = trim(split_all(stdout, ":"@)[0]);
    if name.len() == 0 {
        None
    } else {
        Some(name)
    }
}

/// Reads the user name `getent passwd` prints.
pub fn getent_user(stdout: &str) -> (r: Option<String>)
    ensures
        crate::scanner::opt_view(r) == getent_spec(stdout@),
{
    let colon = chars_of(":");
    proof {
        reveal_strlit(":");
        crate::text::lemma_split_all_nonempty(stdout@, colon@);
    }
    let parts = split_all_vec(&chars_of(stdout), &colon);
    let name = trim_vec(&parts[0]);
    if name.len() == 0 {
        None
    } else {
        Some(string_of(&name))
    }
}

/// The start time, in clock ticks, of `/proc/<pid>/stat`: the 20th field
/// after the command's closing parenthesis; 0 when absent or invalid.
pub open spec fn start_ticks_spec(stat: Seq<char>) -> int {
    match rfind(stat, ")"@) {
        Some(i) => {
            let w = words(stat.skip(i + 1));
            if w.len() > 19 {
                match parse_uint(w[19], 18446744073709551615) {
                    Some(n) => n,
                    None => 0,
                }
            } else {
                0
            }
        },
        None => 0,
    }
}

/// Reads the start time of a process from `/proc/<pid>/stat`.
pub fn stat_start_ticks(stat: &str) -> (r: u64)
    ensures
        r == start_ticks_spec(stat@),
{
    let v = chars_of(stat);
    let close = chars_of(")");
    proof {
        reveal_strlit(")");
    }
    assert(close@.len() == 1);
    match rfind_vec(&v, &close) {
        Some(i) => {
            proof {
                crate::platform::shared::lemma_rfind_upto(v@, close@, v@.len() - close@.len());
                assert(crate::text::occurs_at(v@, close@, i as int));
                assert(close@.len() == 1);
            }
            assert(i < v.len());
            let start: usize = i + 1;
            let w = words_vec(&slice(&v, start, v.len()));
            if w.len() > 19 {
                match parse_u64(&w[19]) {
                    Some(n) => n,
                    None => 0,
                }
            } else {
                0
            }
        },
        None => 0,
    }
}

// ---------------------------------------------------------------------------
// Assembling the scan
// ---------------------------------------------------------------------------

/// What `/proc` says of a process.
#[derive(Debug, Clone)]
pub struct ProcInfo {
    pub user: String,
    pub command_line: String,
    pub working_directory: String,
    pub executable_path: String,
    pub uptime_seconds: u64,
}

pub struct ProcInfoView {
    pub user: Seq<char>,
    pub command_line: Seq<char>,
    pub working_directory: Seq<char>,
    pub executable_path: Seq<char>,
    pub uptime_seconds: u64,
}

impl View for ProcInfo {
    type V = ProcInfoView;

    open spec fn view(&self) -> ProcInfoView {
        ProcInfoView {
            user: self.user@,
            command_line: self.command_line@,
            working_directory: self.working_directory@,
            executable_path: self.executable_path@,
            uptime_seconds: self.uptime_seconds,
        }
    }
}

/// The plain values of the `/proc` facts per pid.
pub open spec fn infos_view(v: Seq<(u32, ProcInfo)>) -> Seq<(u32, ProcInfoView)> {
    v.map_values(|e: (u32, ProcInfo)| (e.0, e.1@))
}

/// The facts of a process whose `/proc` entry is gone.
pub open spec fn empty_info() -> ProcInfoView {
    ProcInfoView {
        user: seq![],
        command_line: seq![],
        working_directory: seq![],
        executable_path: seq![],
        uptime_seconds: 0,
    }
}

/// What was read for `pid` (the first entry), or nothing at all when its
/// `/proc` directory was gone.
pub open spec fn info_for(infos: Seq<(u32, ProcInfoView)>, pid: u32) -> ProcInfoView
    decreases infos.len(),
{
    if infos.len() == 0 {
        empty_info()
    } else if infos[0].0 == pid {
        infos[0].1
    } else {
        info_for(infos.drop_first(), pid)
    }
}

fn lookup_info(infos: &Vec<(u32, ProcInfo)>, pid: u32) -> (r: ProcInfo)
    ensures
        r@ == info_for(infos_view(infos@), pid),
{
    let ghost ev = infos_view(infos@);
    let mut i: usize = 0;
    assert(ev.skip(0) == ev);
    while i < infos.len()
        invariant
            i <= infos.len(),
            ev == infos_view(infos@),
            info_for(ev, pid) == info_for(ev.skip(i as int), pid),
        decreases infos.len() - i,
    {
        assert(ev.skip(i as int)[0] == ev[i as int]);
        if infos[i].0 == pid {
            let e = &infos[i].1;
            return ProcInfo {
                user: e.user.clone(),
                command_line: e.command_line.clone(),
                working_directory: e.working_directory.clone(),
                executable_path: e.executable_path.clone(),
                uptime_seconds: e.uptime_seconds,
            };
        }
        assert(ev.skip(i as int).drop_first() == ev.skip(i + 1));
        i += 1;
    }
    ProcInfo {
        user: String::new(),
        command_line: String::new(),
        working_directory: String::new(),
        executable_path: String::new(),
        uptime_seconds: 0,
    }
}

/// The process a merged record describes, before classification.
pub open spec fn base_process(r: RecordView, info: ProcInfoView, root: Seq<char>) -> ProcessView {
    ProcessView {
        pid: r.pid,
        name: r.name,
        user: info.user,
        ports: r.bindings,
        executable_path: info.executable_path,
        script_path: script_path_spec(info.command_line, r.name),
        command_line: info.command_line,
        working_directory: info.working_directory,
        project_root: root,
        system_kind: SystemKind::User,
        is_system_service: false,
        uptime_seconds: info.uptime_seconds,
    }
}

/// The classified process a merged record describes.
pub open spec fn process_spec(
    r: RecordView,
    info: ProcInfoView,
    root: Seq<char>,
    home: Seq<char>,
    user: Seq<char>,
) -> ProcessView {
    let b = base_process(r, info, root);
    view_with_kind(b, kind_spec(b, home, user))
}

/// One classified process per merged record that holds a socket.
pub open spec fn processes_spec(
    rs: Seq<RecordView>,
    infos: Seq<(u32, ProcInfoView)>,
    roots: Seq<(u32, Seq<char>)>,
    home: Seq<char>,
    user: Seq<char>,
) -> Seq<ProcessView>
    decreases rs.len(),
{
    if rs.len() == 0 {
        seq![]
    } else {
        processes_spec(rs.drop_last(), infos, roots, home, user) + if rs.last().bindings.len()
            == 0 {
            seq![]
        } else {
            seq![
                process_spec(
                    rs.last(),
                    info_for(infos, rs.last().pid),
                    text_for(roots, rs.last().pid),
                    home,
                    user,
                ),
            ]
        }
    }
}

/// The socket records of a scan: TCP listeners, then UDP sockets when asked.
pub open spec fn scan_records(tcp_output: Seq<char>, udp_output: Option<Seq<char>>) -> Seq<
    RecordView,
> {
    ss_output_spec(tcp_output, "TCP"@) + match udp_output {
        Some(u) => ss_output_spec(u, "UDP"@),
        None => seq![],
    }
}

/// The result of a Linux scan: the records of both outputs merged per
/// process, each process with its `/proc` facts and project root,
/// classified, in ascending order of primary port.
pub open spec fn scan_spec(
    tcp_output: Seq<char>,
    udp_output: Option<Seq<char>>,
    infos: Seq<(u32, ProcInfoView)>,
    roots: Seq<(u32, Seq<char>)>,
    home: Seq<char>,
    user: Seq<char>,
) -> Seq<ProcessView> {
    sort_by_port(
        processes_spec(merge_spec(scan_records(tcp_output, udp_output)), infos, roots, home, user),
    )
}

/// The merged socket records of a scan, whose pids the `/proc` facts are
/// then read for.
pub fn socket_records(tcp_output: &str, udp_output: &Option<String>) -> (r: Vec<SocketRecord>)
    ensures
        records_view(r@) == merge_spec(scan_records(tcp_output@, crate::scanner::opt_view(*udp_output))),
{
    let mut records = parse_ss_output(tcp_output, "TCP");
    match udp_output {
        Some(u) => {
            let mut more = parse_ss_output(u.as_str(), "UDP");
            let ghost a = records@;
            let ghost b = more@;
            records.append(&mut more);
            assert(records_view(records@) =~= records_view(a) + records_view(b));
        },
        None => {
            assert(records_view(records@) =~= records_view(records@) + Seq::<RecordView>::empty());
        },
    }
    merge_by_pid(records)
}

/// Builds the scan result from the outputs of `ss` (`udp_output` is present
/// when UDP sockets were asked for), the `/proc` facts read per pid, the
/// project root found per pid, and the user the scan runs as.
pub fn scan_listening_ports(
    tcp_output: &str,
    udp_output: &Option<String>,
    infos: &Vec<(u32, ProcInfo)>,
    roots: &Vec<(u32, String)>,
    env: &UserEnv,
) -> (r: Vec<PortProcess>)
    ensures
        processes_view(r@) == scan_spec(
            tcp_output@,
            crate::scanner::opt_view(*udp_output),
            infos_view(infos@),
            pairs_view(roots@),
            env.home@,
            env.username@,
        ),
{
    let records = socket_records(tcp_output, udp_output);
    let ghost rv = records_view(records@);
    let mut processes: Vec<PortProcess> = Vec::new();
    let mut i: usize = 0;
    assert(rv.take(0) =~= Seq::<RecordView>::empty());
    while i < records.len()
        invariant
            i <= records.len(),
            rv == records_view(records@),
            processes_view(processes@) == processes_spec(
                rv.take(i as int),
                infos_view(infos@),
                pairs_view(roots@),
                env.home@,
                env.username@,
            ),
        decreases records.len() - i,
    {
        assert(rv.take(i + 1).drop_last() == rv.take(i as int));
        assert(rv.take(i + 1).last() == records@[i as int]@);
        let ghost before = processes@;
        let record = &records[i];
        if record.bindings.len() == 0 {
            assert(processes_view(processes@) == processes_view(before) + Seq::<
                ProcessView,
            >::empty());
        } else {
            let info = lookup_info(infos, record.pid);
            let script_path = extract_script_path(info.command_line.as_str(), record.name.as_str());
            let root = lookup_text(roots, record.pid);
            let mut process = PortProcess {
                pid: record.pid,
                name: record.name.clone(),
                user: info.user,
                ports: clone_bindings(&record.bindings),
                executable_path: info.executable_path,
                script_path,
                command_line: info.command_line,
                working_directory: info.working_directory,
                project_root: root,
                system_kind: SystemKind::User,
                is_system_service: false,
                uptime_seconds: info.uptime_seconds,
            };
            assert(process@ == base_process(
                record@,
                info_for(infos_view(infos@), record.pid),
                text_for(pairs_view(roots@), record.pid),
            ));
            classify(&mut process, env);
            processes.push(process);
            assert(processes_view(processes@) == processes_view(before) + seq![process@]);
        }
        i += 1;
    }
    assert(rv.take(records.len() as int) == rv);
    sort_by_primary_port(processes)
}

/// The path the project root of a record's process is searched from: its
/// working directory, else the script it runs, else its executable.
pub fn root_probe(record: &SocketRecord, info: &ProcInfo) -> (r: String)
    ensures
        r@ == crate::scanner::probe_spec(
            info.working_directory@,
            script_path_spec(info.command_line@, record.name@),
            info.executable_path@,
        ),
{
    let script = extract_script_path(info.command_line.as_str(), record.name.as_str());
    crate::scanner::project_root_probe(&info.working_directory, &script, &info.executable_path)
}

} // verus!
