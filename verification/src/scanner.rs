//! What a scan reports: listening sockets grouped by the process that owns
//! them.
use vstd::prelude::*;

use crate::classifier::SystemKind;

verus! {

/// One listening socket: local address, port and protocol (`"TCP"`/`"UDP"`).
#[derive(Debug, Clone)]
pub struct PortBinding {
    pub address: String,
    pub port: u16,
    pub protocol: String,
}

/// The plain values of a [`PortBinding`].
pub struct BindingView {
    pub address: Seq<char>,
    pub port: u16,
    pub protocol: Seq<char>,
}

impl View for PortBinding {
    type V = BindingView;

    open spec fn view(&self) -> BindingView {
        BindingView { address: self.address@, port: self.port, protocol: self.protocol@ }
    }
}

/// The views of a list of bindings.
pub open spec fn bindings_view(v: Seq<PortBinding>) -> Seq<BindingView> {
    v.map_values(|b: PortBinding| b@)
}

/// A process that owns at least one listening socket.
#[derive(Debug, Clone)]
pub struct PortProcess {
    pub pid: u32,
    pub name: String,
    pub user: String,
    pub ports: Vec<PortBinding>,
    pub executable_path: String,
    pub script_path: Option<String>,
    pub command_line: String,
    pub working_directory: String,
    pub project_root: String,
    pub system_kind: SystemKind,
    pub is_system_service: bool,
    pub uptime_seconds: u64,
}

/// Two bindings name the same socket.
pub open spec fn same_binding(a: BindingView, b: BindingView) -> bool {
    a.address == b.address && a.port == b.port && a.protocol == b.protocol
}

/// Whether two bindings name the same socket.
pub fn same_binding_exec(a: &PortBinding, b: &PortBinding) -> (r: bool)
    ensures
        r == same_binding(a@, b@),
{
    a.address == b.address && a.port == b.port && a.protocol == b.protocol
}

/// A copy of a binding.
pub fn clone_binding(b: &PortBinding) -> (r: PortBinding)
    ensures
        r@ == b@,
{
    PortBinding { address: b.address.clone(), port: b.port, protocol: b.protocol.clone() }
}


/// The plain values of a [`PortProcess`].
pub struct ProcessView {
    pub pid: u32,
    pub name: Seq<char>,
    pub user: Seq<char>,
    pub ports: Seq<BindingView>,
    pub executable_path: Seq<char>,
    pub script_path: Option<Seq<char>>,
    pub command_line: Seq<char>,
    pub working_directory: Seq<char>,
    pub project_root: Seq<char>,
    pub system_kind: SystemKind,
    pub is_system_service: bool,
    pub uptime_seconds: u64,
}

/// The text of an optional string.
pub open spec fn opt_view(o: Option<String>) -> Option<Seq<char>> {
    match o {
        Some(s) => Some(s@),
        None => None,
    }
}

impl View for PortProcess {
    type V = ProcessView;

    open spec fn view(&self) -> ProcessView {
        ProcessView {
            pid: self.pid,
            name: self.name@,
            user: self.user@,
            ports: bindings_view(self.ports@),
            executable_path: self.executable_path@,
            script_path: opt_view(self.script_path),
            command_line: self.command_line@,
            working_directory: self.working_directory@,
            project_root: self.project_root@,
            system_kind: self.system_kind,
            is_system_service: self.is_system_service,
            uptime_seconds: self.uptime_seconds,
        }
    }
}

/// The views of a list of processes.
pub open spec fn processes_view(v: Seq<PortProcess>) -> Seq<ProcessView> {
    v.map_values(|p: PortProcess| p@)
}

/// `p` with its kind set to `k`, flagged as a system service unless `k` is
/// `User`.
pub open spec fn view_with_kind(p: ProcessView, k: SystemKind) -> ProcessView {
    ProcessView {
        pid: p.pid,
        name: p.name,
        user: p.user,
        ports: p.ports,
        executable_path: p.executable_path,
        script_path: p.script_path,
        command_line: p.command_line,
        working_directory: p.working_directory,
        project_root: p.project_root,
        system_kind: k,
        is_system_service: k != SystemKind::User,
        uptime_seconds: p.uptime_seconds,
    }
}

// ---------------------------------------------------------------------------
// Ordering by primary port
// ---------------------------------------------------------------------------

/// The port a process is listed under: its first binding's, else 0.
pub open spec fn port_key(p: ProcessView) -> int {
    if p.ports.len() > 0 {
        p.ports[0].port as int
    } else {
        0
    }
}

/// `x` placed after every element of the sorted `s` whose key is not larger.
pub open spec fn insert_by_port(s: Seq<ProcessView>, x: ProcessView) -> Seq<ProcessView>
    decreases s.len(),
{
    if s.len() == 0 {
        seq![x]
    } else if port_key(s.last()) <= port_key(x) {
        s.push(x)
    } else {
        insert_by_port(s.drop_last(), x).push(s.last())
    }
}

/// `s` in ascending order of primary port; processes with equal ports keep
/// their relative order (a stable sort).
pub open spec fn sort_by_port(s: Seq<ProcessView>) -> Seq<ProcessView>
    decreases s.len(),
{
    if s.len() == 0 {
        seq![]
    } else {
        insert_by_port(sort_by_port(s.drop_last()), s.last())
    }
}

/// The port a process is listed under (see `port_key`).
pub fn primary_port_key(p: &PortProcess) -> (k: u16)
    ensures
        k == port_key(p@),
{
    if p.ports.len() > 0 {
        p.ports[0].port
    } else {
        0
    }
}

/// Sorts processes by primary port, stably.
pub fn sort_by_primary_port(v: Vec<PortProcess>) -> (r: Vec<PortProcess>)
    ensures
        processes_view(r@) == sort_by_port(processes_view(v@)),
{
    let ghost orig = processes_view(v@);
    let mut rest = v;
    let mut out: Vec<PortProcess> = Vec::new();
    let ghost mut i: int = 0;
    assert(orig.take(0) =~= Seq::<ProcessView>::empty());
    assert(processes_view(rest@) =~= orig.skip(0));
    while rest.len() > 0
        invariant
            0 <= i <= orig.len(),
            processes_view(rest@) == orig.skip(i),
            processes_view(out@) == sort_by_port(orig.take(i)),
        decreases rest.len(),
    {
        let ghost old_rest = processes_view(rest@);
        let ghost old_vec = rest@;
        assert(old_rest.len() == rest.len());
        assert(old_rest[0] == orig[i]);
        let x = rest.remove(0);
        assert(x@ == old_rest[0]);
        assert(orig.take(i + 1).drop_last() == orig.take(i));
        assert(rest@ == old_vec.remove(0));
        assert forall|j: int| 0 <= j < rest@.len() implies processes_view(rest@)[j] == orig.skip(
            i + 1,
        )[j] by {
            assert(rest@[j] == old_vec[j + 1]);
            assert(old_rest[j + 1] == orig.skip(i)[j + 1]);
        }
        assert(processes_view(rest@) =~= orig.skip(i + 1));
        let key = primary_port_key(&x);
        let mut pos: usize = out.len();
        let ghost sorted = processes_view(out@);
        assert(sorted.take(pos as int) == sorted);
        assert(sorted.skip(pos as int) =~= Seq::<ProcessView>::empty());
        while pos > 0 && primary_port_key(&out[pos - 1]) > key
            invariant
                pos <= out.len(),
                sorted == processes_view(out@),
                key == port_key(x@),
                insert_by_port(sorted, x@) == insert_by_port(sorted.take(pos as int), x@)
                    + sorted.skip(pos as int),
            decreases pos,
        {
            assert(sorted.take(pos as int).drop_last() == sorted.take(pos - 1));
            assert(sorted.take(pos as int).last() == sorted[pos - 1]);
            assert(sorted.skip(pos - 1) == seq![sorted[pos - 1]] + sorted.skip(pos as int));
            pos -= 1;
        }
        if pos == 0 {
            assert(sorted.take(0) =~= Seq::<ProcessView>::empty());
        } else {
            assert(sorted.take(pos as int).last() == sorted[pos - 1]);
        }
        out.insert(pos, x);
        assert(processes_view(out@) =~= insert_by_port(sorted, x@));
        proof {
            i = i + 1;
        }
    }
    assert(orig.take(i) == orig);
    out
}

/// Inserting into a list sorted by port keeps it sorted and adds only `x`.
pub proof fn lemma_insert_by_port(s: Seq<ProcessView>, x: ProcessView)
    requires
        forall|a: int, b: int| 0 <= a < b < s.len() ==> port_key(s[a]) <= port_key(s[b]),
    ensures
        insert_by_port(s, x).len() == s.len() + 1,
        forall|a: int, b: int|
            0 <= a < b < insert_by_port(s, x).len() ==> port_key(insert_by_port(s, x)[a])
                <= port_key(insert_by_port(s, x)[b]),
        forall|a: int|
            0 <= a < insert_by_port(s, x).len() ==> port_key(insert_by_port(s, x)[a]) == port_key(
                x,
            ) || exists|c: int| 0 <= c < s.len() && port_key(s[c]) == port_key(insert_by_port(s, x)[a]),
    decreases s.len(),
{
    if s.len() > 0 && port_key(s.last()) > port_key(x) {
        let t = s.drop_last();
        lemma_insert_by_port(t, x);
        let r = insert_by_port(t, x);
        assert forall|a: int| 0 <= a < r.len() implies port_key(r[a]) <= port_key(s.last()) by {
            if port_key(r[a]) != port_key(x) {
                let c = choose|c: int| 0 <= c < t.len() && port_key(t[c]) == port_key(r[a]);
                assert(t[c] == s[c]);
            }
        }
        assert forall|a: int|
            0 <= a < insert_by_port(s, x).len() implies port_key(insert_by_port(s, x)[a])
            == port_key(x) || exists|c: int|
            0 <= c < s.len() && port_key(s[c]) == port_key(insert_by_port(s, x)[a]) by {
            if a < r.len() {
                if port_key(r[a]) != port_key(x) {
                    let c = choose|c: int| 0 <= c < t.len() && port_key(t[c]) == port_key(r[a]);
                    assert(t[c] == s[c]);
                }
            } else {
                assert(port_key(s[s.len() - 1]) == port_key(insert_by_port(s, x)[a]));
            }
        }
    } else if s.len() > 0 {
        assert forall|a: int|
            0 <= a < insert_by_port(s, x).len() implies port_key(insert_by_port(s, x)[a])
            == port_key(x) || exists|c: int|
            0 <= c < s.len() && port_key(s[c]) == port_key(insert_by_port(s, x)[a]) by {
            if a < s.len() {
                assert(port_key(s[a]) == port_key(insert_by_port(s, x)[a]));
            }
        }
    }
}

/// A scan lists processes in ascending order of primary port.
pub proof fn law_sorted_by_port(s: Seq<ProcessView>)
    ensures
        sort_by_port(s).len() == s.len(),
        forall|a: int, b: int|
            0 <= a < b < sort_by_port(s).len() ==> port_key(sort_by_port(s)[a]) <= port_key(
                sort_by_port(s)[b],
            ),
    decreases s.len(),
{
    if s.len() > 0 {
        law_sorted_by_port(s.drop_last());
        lemma_insert_by_port(sort_by_port(s.drop_last()), s.last());
    }
}

proof fn lemma_insert_by_port_multiset(s: Seq<ProcessView>, x: ProcessView)
    ensures
        insert_by_port(s, x).to_multiset() =~= s.to_multiset().insert(x),
    decreases s.len(),
{
    broadcast use vstd::seq_lib::group_to_multiset_ensures;
    broadcast use vstd::multiset::group_multiset_axioms;

    if s.len() == 0 {
        assert(seq![x] =~= s.push(x));
    } else if port_key(s.last()) > port_key(x) {
        lemma_insert_by_port_multiset(s.drop_last(), x);
        assert(s =~= s.drop_last().push(s.last()));
    }
}

/// Sorting by port neither adds nor loses a process.
pub proof fn law_sort_by_port_keeps_processes(s: Seq<ProcessView>)
    ensures
        sort_by_port(s).to_multiset() =~= s.to_multiset(),
    decreases s.len(),
{
    broadcast use vstd::seq_lib::group_to_multiset_ensures;

    if s.len() == 0 {
        assert(sort_by_port(s) =~= s);
    } else {
        law_sort_by_port_keeps_processes(s.drop_last());
        lemma_insert_by_port_multiset(sort_by_port(s.drop_last()), s.last());
        assert(s =~= s.drop_last().push(s.last()));
    }
}

// ---------------------------------------------------------------------------
// Building processes
// ---------------------------------------------------------------------------

/// The path a project root is searched from: the working directory, else the
/// script, else the executable.
pub open spec fn probe_spec(
    working_directory: Seq<char>,
    script_path: Option<Seq<char>>,
    executable_path: Seq<char>,
) -> Seq<char> {
    if working_directory.len() > 0 {
        working_directory
    } else {
        match script_path {
            Some(s) => s,
            None => executable_path,
        }
    }
}

/// The path a project root is searched from (see `probe_spec`).
pub fn project_root_probe(
    working_directory: &String,
    script_path: &Option<String>,
    executable_path: &String,
) -> (r: String)
    ensures
        r@ == probe_spec(working_directory@, opt_view(*script_path), executable_path@),
{
    if !working_directory.as_str().is_empty() {
        working_directory.clone()
    } else {
        match script_path {
            Some(s) => s.clone(),
            None => executable_path.clone(),
        }
    }
}

/// The plain values of a list of texts per pid.
pub open spec fn pairs_view(v: Seq<(u32, String)>) -> Seq<(u32, Seq<char>)> {
    v.map_values(|o: (u32, String)| (o.0, o.1@))
}

/// The text recorded for `pid` (the first entry), or the empty text.
pub open spec fn text_for(entries: Seq<(u32, Seq<char>)>, pid: u32) -> Seq<char>
    decreases entries.len(),
{
    if entries.len() == 0 {
        seq![]
    } else if entries[0].0 == pid {
        entries[0].1
    } else {
        text_for(entries.drop_first(), pid)
    }
}

/// Looks up the text recorded for a pid, such as its project root.
pub fn lookup_text(entries: &Vec<(u32, String)>, pid: u32) -> (r: String)
    ensures
        r@ == text_for(pairs_view(entries@), pid),
{
    let ghost ev = pairs_view(entries@);
    let mut i: usize = 0;
    assert(ev.skip(0) == ev);
    while i < entries.len()
        invariant
            i <= entries.len(),
            ev == pairs_view(entries@),
            text_for(ev, pid) == text_for(ev.skip(i as int), pid),
        decreases entries.len() - i,
    {
        assert(ev.skip(i as int)[0] == ev[i as int]);
        if entries[i].0 == pid {
            return entries[i].1.clone();
        }
        assert(ev.skip(i as int).drop_first() == ev.skip(i + 1));
        i += 1;
    }
    String::new()
}


// ---------------------------------------------------------------------------
// Bindings of one process
// ---------------------------------------------------------------------------

/// `existing` extended by each binding of `new` it does not hold yet, in order.
pub open spec fn merge_bindings(existing: Seq<BindingView>, new: Seq<BindingView>) -> Seq<
    BindingView,
>
    decreases new.len(),
{
    if new.len() == 0 {
        existing
    } else {
        let acc = merge_bindings(existing, new.drop_last());
        if acc.contains(new.last()) {
            acc
        } else {
            acc.push(new.last())
        }
    }
}

/// A copy of a list of bindings.
pub fn clone_bindings(v: &Vec<PortBinding>) -> (r: Vec<PortBinding>)
    ensures
        bindings_view(r@) == bindings_view(v@),
{
    let mut r: Vec<PortBinding> = Vec::new();
    let mut i: usize = 0;
    while i < v.len()
        invariant
            i <= v.len(),
            bindings_view(r@) == bindings_view(v@).take(i as int),
        decreases v.len() - i,
    {
        let ghost before = r@;
        r.push(clone_binding(&v[i]));
        assert(bindings_view(r@) == bindings_view(before).push(v@[i as int]@));
        assert(bindings_view(v@).take(i + 1) == bindings_view(v@).take(i as int).push(
            v@[i as int]@,
        ));
        i += 1;
    }
    assert(bindings_view(v@).take(v.len() as int) == bindings_view(v@));
    r
}

/// A copy of a process.
pub fn clone_process(p: &PortProcess) -> (c: PortProcess)
    ensures
        c@ == p@,
{
    PortProcess {
        pid: p.pid,
        name: p.name.clone(),
        user: p.user.clone(),
        ports: clone_bindings(&p.ports),
        executable_path: p.executable_path.clone(),
        script_path: p.script_path.clone(),
        command_line: p.command_line.clone(),
        working_directory: p.working_directory.clone(),
        project_root: p.project_root.clone(),
        system_kind: p.system_kind,
        is_system_service: p.is_system_service,
        uptime_seconds: p.uptime_seconds,
    }
}

/// A copy of a list of processes.
pub fn clone_processes(v: &Vec<PortProcess>) -> (r: Vec<PortProcess>)
    ensures
        processes_view(r@) == processes_view(v@),
{
    let mut r: Vec<PortProcess> = Vec::new();
    let mut i: usize = 0;
    while i < v.len()
        invariant
            i <= v.len(),
            processes_view(r@) == processes_view(v@).take(i as int),
        decreases v.len() - i,
    {
        let ghost before = r@;
        r.push(clone_process(&v[i]));
        assert(processes_view(r@) == processes_view(before).push(v@[i as int]@));
        assert(processes_view(v@).take(i + 1) == processes_view(v@).take(i as int).push(
            v@[i as int]@,
        ));
        i += 1;
    }
    assert(processes_view(v@).take(v.len() as int) == processes_view(v@));
    r
}

/// Whether the list holds the socket.
pub fn holds_binding(v: &Vec<PortBinding>, b: &PortBinding) -> (r: bool)
    ensures
        r == bindings_view(v@).contains(b@),
{
    let mut i: usize = 0;
    while i < v.len()
        invariant
            i <= v.len(),
            forall|j: int| 0 <= j < i ==> bindings_view(v@)[j] != b@,
        decreases v.len() - i,
    {
        if same_binding_exec(&v[i], b) {
            assert(bindings_view(v@)[i as int] == b@);
            return true;
        }
        i += 1;
    }
    false
}

/// Adds each socket of `new` not held yet, in order.
pub fn add_bindings(existing: &mut Vec<PortBinding>, new: &Vec<PortBinding>)
    ensures
        bindings_view(final(existing)@) == merge_bindings(
            bindings_view(old(existing)@),
            bindings_view(new@),
        ),
{
    let ghost start = bindings_view(existing@);
    let mut i: usize = 0;
    assert(bindings_view(new@).take(0) =~= Seq::<BindingView>::empty());
    while i < new.len()
        invariant
            i <= new.len(),
            bindings_view(existing@) == merge_bindings(start, bindings_view(new@).take(i as int)),
        decreases new.len() - i,
    {
        assert(bindings_view(new@).take(i + 1).drop_last() == bindings_view(new@).take(i as int));
        assert(bindings_view(new@).take(i + 1).last() == new@[i as int]@);
        if !holds_binding(existing, &new[i]) {
            let ghost before = existing@;
            existing.push(clone_binding(&new[i]));
            assert(bindings_view(existing@) == bindings_view(before).push(new@[i as int]@));
        }
        i += 1;
    }
    assert(bindings_view(new@).take(new.len() as int) == bindings_view(new@));
}

/// Merging keeps every socket of both lists.
pub proof fn lemma_merge_bindings_contains(e: Seq<BindingView>, n: Seq<BindingView>, x: BindingView)
    requires
        e.contains(x) || n.contains(x),
    ensures
        merge_bindings(e, n).contains(x),
    decreases n.len(),
{
    if n.len() > 0 {
        let acc = merge_bindings(e, n.drop_last());
        if e.contains(x) || n.drop_last().contains(x) {
            lemma_merge_bindings_contains(e, n.drop_last(), x);
            let i = choose|i: int| 0 <= i < acc.len() && acc[i] == x;
            if !acc.contains(n.last()) {
                assert(acc.push(n.last())[i] == x);
            }
        } else {
            assert(x == n.last()) by {
                let i = choose|i: int| 0 <= i < n.len() && n[i] == x;
                if i < n.len() - 1 {
                    assert(n.drop_last()[i] == x);
                }
            }
            if !acc.contains(n.last()) {
                assert(acc.push(n.last())[acc.len() as int] == x);
            }
        }
    }
}

// ---------------------------------------------------------------------------
// A scan on any platform
// ---------------------------------------------------------------------------

/// What the platform's tools reported, ready to be assembled into a scan.
pub enum ScanInputs {
    /// The `ss` outputs (UDP when asked for) and the `/proc` facts per pid.
    Linux {
        tcp_output: String,
        udp_output: Option<String>,
        infos: Vec<(u32, crate::platform::linux::scanner::ProcInfo)>,
    },
    /// The `lsof -F pcn` outputs (UDP when asked for), and the outputs of
    /// `ps` and `lsof -Fn -d cwd,txt`, one per batch of pids.
    MacOs {
        tcp_output: String,
        udp_output: Option<String>,
        ps_outputs: Vec<String>,
        path_outputs: Vec<String>,
    },
    /// The PowerShell listeners, with the system's directories.
    Windows {
        listeners: Vec<crate::platform::windows::scanner::WindowsListener>,
        dirs: crate::platform::windows::paths::WindowsDirs,
    },
}

/// Whether the inputs can be read: on macOS, see `outputs_readable`.
pub open spec fn scan_inputs_readable(inputs: ScanInputs) -> bool {
    match inputs {
        ScanInputs::MacOs { tcp_output, udp_output, ps_outputs, path_outputs } => crate::platform::macos::scanner::outputs_readable(
            tcp_output@,
            opt_view(udp_output),
            crate::cli::strings_view(ps_outputs@),
            crate::cli::strings_view(path_outputs@),
        ),
        _ => true,
    }
}

/// The scan the inputs give on their platform.
pub open spec fn scan_inputs_spec(
    inputs: ScanInputs,
    roots: Seq<(u32, Seq<char>)>,
    home: Seq<char>,
    user: Seq<char>,
) -> Seq<ProcessView> {
    match inputs {
        ScanInputs::Linux { tcp_output, udp_output, infos } => crate::platform::linux::scanner::scan_spec(
            tcp_output@,
            opt_view(udp_output),
            crate::platform::linux::scanner::infos_view(infos@),
            roots,
            home,
            user,
        ),
        ScanInputs::MacOs { tcp_output, udp_output, ps_outputs, path_outputs } => crate::platform::macos::scanner::scan_spec(
            tcp_output@,
            opt_view(udp_output),
            crate::cli::strings_view(ps_outputs@),
            crate::cli::strings_view(path_outputs@),
            roots,
            home,
            user,
        ),
        ScanInputs::Windows { listeners, dirs } => sort_by_port(
            crate::platform::windows::scanner::merge_listeners(
                crate::platform::windows::scanner::listeners_view(listeners@),
                roots,
                home,
                user,
                crate::platform::windows::paths::strings_view(dirs.protected@),
                crate::platform::windows::paths::resolved_view(dirs.resolved@),
            ),
        ),
    }
}

/// The listening processes, classified and in ascending order of primary
/// port, from what the platform's tools reported; `roots` gives the project
/// root found per pid.
pub fn scan_listening_ports(inputs: &ScanInputs, roots: &Vec<(u32, String)>, env: &crate::classifier::UserEnv) -> (r: Vec<PortProcess>)
    requires
        scan_inputs_readable(*inputs),
    ensures
        processes_view(r@) == scan_inputs_spec(*inputs, pairs_view(roots@), env.home@, env.username@),
{
    match inputs {
        ScanInputs::Linux { tcp_output, udp_output, infos } => crate::platform::linux::scanner::scan_listening_ports(
            tcp_output.as_str(),
            udp_output,
            infos,
            roots,
            env,
        ),
        ScanInputs::MacOs { tcp_output, udp_output, ps_outputs, path_outputs } => crate::platform::macos::scanner::scan_listening_ports(
            tcp_output.as_str(),
            udp_output,
            ps_outputs,
            path_outputs,
            roots,
            env,
        ),
        ScanInputs::Windows { listeners, dirs } => crate::platform::windows::scanner::scan_listening_ports(
            listeners,
            roots,
            env,
            dirs,
        ),
    }
}

} // verus!
