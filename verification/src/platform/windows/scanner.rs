//! Building the Windows scan result from the listeners PowerShell reports.
use vstd::prelude::*;

use crate::classifier::{SystemKind, UserEnv};
use crate::platform::shared::{extract_script_path, script_path_spec};
use crate::platform::windows::classifier::{classify, kind_spec};
use crate::platform::windows::paths::{
    parent_of, resolved_view, strings_view, windows_parent, WindowsDirs,
};
use crate::scanner::{
    add_bindings, bindings_view, lemma_merge_bindings_contains, lookup_text, merge_bindings,
    opt_view, pairs_view, probe_spec, processes_view, sort_by_port, sort_by_primary_port, text_for,
    view_with_kind, BindingView, PortBinding, PortProcess, ProcessView,
};
use crate::text::{chars_of, eq_str, string_from};

verus! {

/// One listening socket as the PowerShell scan reports it.
#[derive(Debug, Clone)]
pub struct WindowsListener {
    pub pid: u32,
    pub name: String,
    pub user: String,
    pub local_address: String,
    pub local_port: u16,
    pub executable_path: Option<String>,
    pub command_line: Option<String>,
    pub protocol: String,
    pub uptime_seconds: u64,
}

pub struct ListenerView {
    pub pid: u32,
    pub name: Seq<char>,
    pub user: Seq<char>,
    pub local_address: Seq<char>,
    pub local_port: u16,
    pub executable_path: Option<Seq<char>>,
    pub command_line: Option<Seq<char>>,
    pub protocol: Seq<char>,
    pub uptime_seconds: u64,
}

impl View for WindowsListener {
    type V = ListenerView;

    open spec fn view(&self) -> ListenerView {
        ListenerView {
            pid: self.pid,
            name: self.name@,
            user: self.user@,
            local_address: self.local_address@,
            local_port: self.local_port,
            executable_path: opt_view(self.executable_path),
            command_line: opt_view(self.command_line),
            protocol: self.protocol@,
            uptime_seconds: self.uptime_seconds,
        }
    }
}

/// The plain values of a list of listeners.
pub open spec fn listeners_view(v: Seq<WindowsListener>) -> Seq<ListenerView> {
    v.map_values(|l: WindowsListener| l@)
}

/// The wildcard addresses `0.0.0.0` and `::` read as `*`.
pub open spec fn normalize_address_spec(a: Seq<char>) -> Seq<char> {
    if a == "0.0.0.0"@ || a == "::"@ {
        "*"@
    } else {
        a
    }
}

/// Shows the IPv4 and IPv6 wildcard addresses as `*`.
pub fn normalize_address(address: &str) -> (r: String)
    ensures
        r@ == normalize_address_spec(address@),
{
    let v = chars_of(address);
    if eq_str(&v, "0.0.0.0") || eq_str(&v, "::") {
        string_from("*")
    } else {
        address.to_owned()
    }
}

/// The text, or the empty text.
pub open spec fn or_empty(o: Option<Seq<char>>) -> Seq<char> {
    match o {
        Some(s) => s,
        None => seq![],
    }
}

/// The directory a process presumably runs in: its script's folder, else
/// its executable's folder, else nothing.
pub open spec fn working_directory_spec(exe: Seq<char>, script: Option<Seq<char>>) -> Seq<char> {
    let from_exe = if exe.len() > 0 {
        or_empty(windows_parent(exe))
    } else {
        seq![]
    };
    match script {
        Some(s) => match windows_parent(s) {
            Some(p) => p,
            None => from_exe,
        },
        None => from_exe,
    }
}

/// Windows reports no working directory, so it is inferred: the script's
/// folder, else the executable's folder, else empty.
pub fn infer_working_directory(executable_path: &str, script_path: &Option<String>) -> (r: String)
    ensures
        r@ == working_directory_spec(executable_path@, opt_view(*script_path)),
{
    match script_path {
        Some(script) => match parent_of(script.as_str()) {
            Some(p) => {
                return p;
            },
            None => {},
        },
        None => {},
    }
    if !executable_path.is_empty() {
        match parent_of(executable_path) {
            Some(p) => {
                return p;
            },
            None => {},
        }
    }
    String::new()
}

/// The socket a listener describes.
pub open spec fn listener_binding(l: ListenerView) -> BindingView {
    BindingView {
        address: normalize_address_spec(l.local_address),
        port: l.local_port,
        protocol: l.protocol,
    }
}

/// The script a listener's command line runs.
pub open spec fn listener_script(l: ListenerView) -> Option<Seq<char>> {
    script_path_spec(or_empty(l.command_line), l.name)
}

/// The path the project root of a listener's process is searched from.
pub open spec fn listener_probe_spec(l: ListenerView) -> Seq<char> {
    let exe = or_empty(l.executable_path);
    let script = listener_script(l);
    probe_spec(working_directory_spec(exe, script), script, exe)
}

/// The process a listener describes, before classification.
pub open spec fn listener_base(l: ListenerView, root: Seq<char>) -> ProcessView {
    let exe = or_empty(l.executable_path);
    let script = listener_script(l);
    ProcessView {
        pid: l.pid,
        name: l.name,
        user: l.user,
        ports: seq![listener_binding(l)],
        executable_path: exe,
        script_path: script,
        command_line: or_empty(l.command_line),
        working_directory: working_directory_spec(exe, script),
        project_root: root,
        system_kind: SystemKind::User,
        is_system_service: false,
        uptime_seconds: l.uptime_seconds,
    }
}

/// The classified process a listener describes.
pub open spec fn listener_process(
    l: ListenerView,
    roots: Seq<(u32, Seq<char>)>,
    home: Seq<char>,
    user: Seq<char>,
    protected: Seq<Seq<char>>,
    resolved: Seq<(Seq<char>, Option<Seq<char>>)>,
) -> ProcessView {
    let b = listener_base(l, text_for(roots, l.pid));
    view_with_kind(b, kind_spec(b, home, user, protected, resolved))
}

/// `p` with these sockets.
pub open spec fn with_ports(p: ProcessView, ports: Seq<BindingView>) -> ProcessView {
    ProcessView {
        pid: p.pid,
        name: p.name,
        user: p.user,
        ports: ports,
        executable_path: p.executable_path,
        script_path: p.script_path,
        command_line: p.command_line,
        working_directory: p.working_directory,
        project_root: p.project_root,
        system_kind: p.system_kind,
        is_system_service: p.is_system_service,
        uptime_seconds: p.uptime_seconds,
    }
}

/// Where the process of `pid` is.
pub open spec fn process_index(ps: Seq<ProcessView>, pid: u32) -> Option<int>
    decreases ps.len(),
{
    if ps.len() == 0 {
        None
    } else {
        match process_index(ps.drop_last(), pid) {
            Some(k) => Some(k),
            None => if ps.last().pid == pid {
                Some(ps.len() - 1)
            } else {
                None
            },
        }
    }
}

/// One process per pid, in order of first appearance: the first listener of
/// a pid makes (and classifies) the process, later ones add their socket
/// unless it is already listed.
pub open spec fn merge_listeners(
    ls: Seq<ListenerView>,
    roots: Seq<(u32, Seq<char>)>,
    home: Seq<char>,
    user: Seq<char>,
    protected: Seq<Seq<char>>,
    resolved: Seq<(Seq<char>, Option<Seq<char>>)>,
) -> Seq<ProcessView>
    decreases ls.len(),
{
    if ls.len() == 0 {
        seq![]
    } else {
        let prev = merge_listeners(ls.drop_last(), roots, home, user, protected, resolved);
        let l = ls.last();
        match process_index(prev, l.pid) {
            Some(k) => prev.update(
                k,
                with_ports(prev[k], merge_bindings(prev[k].ports, seq![listener_binding(l)])),
            ),
            None => prev.push(listener_process(l, roots, home, user, protected, resolved)),
        }
    }
}

proof fn lemma_process_index_prefix(ps: Seq<ProcessView>, n: int, pid: u32)
    requires
        0 <= n <= ps.len(),
        process_index(ps.take(n), pid) is Some,
    ensures
        process_index(ps, pid) == process_index(ps.take(n), pid),
    decreases ps.len() - n,
{
    if n < ps.len() {
        assert(ps.take(n + 1).drop_last() == ps.take(n));
        lemma_process_index_prefix(ps, n + 1, pid);
    } else {
        assert(ps.take(n) == ps);
    }
}

proof fn lemma_process_index_bounds(ps: Seq<ProcessView>, pid: u32)
    ensures
        process_index(ps, pid) matches Some(k) ==> 0 <= k < ps.len() && ps[k].pid == pid,
        process_index(ps, pid) is None ==> forall|j: int| 0 <= j < ps.len() ==> ps[j].pid != pid,
    decreases ps.len(),
{
    if ps.len() > 0 {
        lemma_process_index_bounds(ps.drop_last(), pid);
        assert forall|j: int| 0 <= j < ps.len() - 1 implies ps[j] == ps.drop_last()[j] by {}
    }
}

fn process_position(ps: &Vec<PortProcess>, pid: u32) -> (r: Option<usize>)
    ensures
        crate::text::opt_int(r) == process_index(processes_view(ps@), pid),
{
    let ghost pv = processes_view(ps@);
    let mut i: usize = 0;
    assert(pv.take(0) =~= Seq::<ProcessView>::empty());
    while i < ps.len()
        invariant
            i <= ps.len(),
            pv == processes_view(ps@),
            process_index(pv.take(i as int), pid) is None,
        decreases ps.len() - i,
    {
        assert(pv.take(i + 1).drop_last() == pv.take(i as int));
        if ps[i].pid == pid {
            proof {
                lemma_process_index_prefix(pv, i as int + 1, pid);
            }
            return Some(i);
        }
        i += 1;
    }
    assert(pv.take(ps.len() as int) == pv);
    None
}

fn or_empty_exec(o: &Option<String>) -> (r: String)
    ensures
        r@ == or_empty(opt_view(*o)),
{
    match o {
        Some(s) => s.clone(),
        None => String::new(),
    }
}

/// The path the project root of a listener's process is searched from: its
/// inferred working directory, else its script, else its executable.
pub fn listener_probe(listener: &WindowsListener) -> (r: String)
    ensures
        r@ == listener_probe_spec(listener@),
{
    let exe = or_empty_exec(&listener.executable_path);
    let cmd = or_empty_exec(&listener.command_line);
    let script = extract_script_path(cmd.as_str(), listener.name.as_str());
    let wd = infer_working_directory(exe.as_str(), &script);
    crate::scanner::project_root_probe(&wd, &script, &exe)
}

/// Builds the Windows scan result: one classified process per pid holding
/// its distinct sockets, in ascending order of primary port. `roots` gives
/// the project root found per pid.
pub fn scan_listening_ports(
    listeners: &Vec<WindowsListener>,
    roots: &Vec<(u32, String)>,
    env: &UserEnv,
    dirs: &WindowsDirs,
) -> (r: Vec<PortProcess>)
    ensures
        processes_view(r@) == sort_by_port(
            merge_listeners(
                listeners_view(listeners@),
                pairs_view(roots@),
                env.home@,
                env.username@,
                strings_view(dirs.protected@),
                resolved_view(dirs.resolved@),
            ),
        ),
{
    let ghost lv = listeners_view(listeners@);
    let ghost rts = pairs_view(roots@);
    let ghost prot = strings_view(dirs.protected@);
    let ghost res = resolved_view(dirs.resolved@);
    let mut keyed: Vec<PortProcess> = Vec::new();
    let mut i: usize = 0;
    assert(lv.take(0) =~= Seq::<ListenerView>::empty());
    assert(processes_view(keyed@) =~= Seq::<ProcessView>::empty());
    while i < listeners.len()
        invariant
            i <= listeners.len(),
            lv == listeners_view(listeners@),
            rts == pairs_view(roots@),
            prot == strings_view(dirs.protected@),
            res == resolved_view(dirs.resolved@),
            processes_view(keyed@) == merge_listeners(
                lv.take(i as int),
                rts,
                env.home@,
                env.username@,
                prot,
                res,
            ),
        decreases listeners.len() - i,
    {
        assert(lv.take(i + 1).drop_last() == lv.take(i as int));
        assert(lv.take(i + 1).last() == listeners@[i as int]@);
        let l = &listeners[i];
        let binding = PortBinding {
            address: normalize_address(l.local_address.as_str()),
            port: l.local_port,
            protocol: l.protocol.clone(),
        };
        assert(binding@ == listener_binding(l@));
        let ghost before = processes_view(keyed@);
        match process_position(&keyed, l.pid) {
            Some(k) => {
                proof {
                    lemma_process_index_bounds(before, l.pid);
                }
                let mut existing = keyed.remove(k);
                assert(existing@ == before[k as int]);
                let mut one: Vec<PortBinding> = Vec::new();
                one.push(binding);
                assert(bindings_view(one@) =~= seq![listener_binding(l@)]);
                add_bindings(&mut existing.ports, &one);
                assert(existing@ =~= with_ports(
                    before[k as int],
                    merge_bindings(before[k as int].ports, seq![listener_binding(l@)]),
                ));
                keyed.insert(k, existing);
                assert(processes_view(keyed@) =~= before.update(
                    k as int,
                    with_ports(
                        before[k as int],
                        merge_bindings(before[k as int].ports, seq![listener_binding(l@)]),
                    ),
                ));
            },
            None => {
                let exe = or_empty_exec(&l.executable_path);
                let cmd = or_empty_exec(&l.command_line);
                let script = extract_script_path(cmd.as_str(), l.name.as_str());
                let wd = infer_working_directory(exe.as_str(), &script);
                let root = lookup_text(roots, l.pid);
                let mut ports: Vec<PortBinding> = Vec::new();
                ports.push(binding);
                assert(bindings_view(ports@) =~= seq![listener_binding(l@)]);
                let mut process = PortProcess {
                    pid: l.pid,
                    name: l.name.clone(),
                    user: l.user.clone(),
                    ports,
                    executable_path: exe,
                    script_path: script,
                    command_line: cmd,
                    working_directory: wd,
                    project_root: root,
                    system_kind: SystemKind::User,
                    is_system_service: false,
                    uptime_seconds: l.uptime_seconds,
                };
                assert(process@ =~= listener_base(l@, text_for(rts, l.pid)));
                classify(&mut process, env, dirs);
                keyed.push(process);
                assert(processes_view(keyed@) =~= before.push(
                    listener_process(l@, rts, env.home@, env.username@, prot, res),
                ));
            },
        }
        i += 1;
    }
    assert(lv.take(listeners.len() as int) == lv);
    sort_by_primary_port(keyed)
}

/// The Windows scan lists each process once.
pub proof fn law_one_process_per_pid(
    ls: Seq<ListenerView>,
    roots: Seq<(u32, Seq<char>)>,
    home: Seq<char>,
    user: Seq<char>,
    protected: Seq<Seq<char>>,
    resolved: Seq<(Seq<char>, Option<Seq<char>>)>,
)
    ensures
        forall|i: int, j: int|
            0 <= i < j < merge_listeners(ls, roots, home, user, protected, resolved).len()
                ==> merge_listeners(ls, roots, home, user, protected, resolved)[i].pid
                != merge_listeners(ls, roots, home, user, protected, resolved)[j].pid,
    decreases ls.len(),
{
    if ls.len() > 0 {
        law_one_process_per_pid(ls.drop_last(), roots, home, user, protected, resolved);
        let prev = merge_listeners(ls.drop_last(), roots, home, user, protected, resolved);
        lemma_process_index_bounds(prev, ls.last().pid);
    }
}

/// The Windows scan loses no socket: the process of each listener holds
/// that listener's socket.
pub proof fn law_every_listener_socket_kept(
    ls: Seq<ListenerView>,
    roots: Seq<(u32, Seq<char>)>,
    home: Seq<char>,
    user: Seq<char>,
    protected: Seq<Seq<char>>,
    resolved: Seq<(Seq<char>, Option<Seq<char>>)>,
    i: int,
)
    requires
        0 <= i < ls.len(),
    ensures
        exists|k: int|
            0 <= k < merge_listeners(ls, roots, home, user, protected, resolved).len()
                && merge_listeners(ls, roots, home, user, protected, resolved)[k].pid == ls[i].pid
                && merge_listeners(ls, roots, home, user, protected, resolved)[k].ports.contains(
                listener_binding(ls[i]),
            ),
    decreases ls.len(),
{
    let m = merge_listeners(ls, roots, home, user, protected, resolved);
    let prev = merge_listeners(ls.drop_last(), roots, home, user, protected, resolved);
    let l = ls.last();
    lemma_process_index_bounds(prev, l.pid);
    if i < ls.len() - 1 {
        assert(ls.drop_last()[i] == ls[i]);
        law_every_listener_socket_kept(ls.drop_last(), roots, home, user, protected, resolved, i);
        let k = choose|k: int|
            0 <= k < prev.len() && prev[k].pid == ls[i].pid && prev[k].ports.contains(
                listener_binding(ls[i]),
            );
        match process_index(prev, l.pid) {
            Some(n) => {
                if n == k {
                    lemma_merge_bindings_contains(
                        prev[k].ports,
                        seq![listener_binding(l)],
                        listener_binding(ls[i]),
                    );
                }
                assert(m[k].pid == ls[i].pid && m[k].ports.contains(listener_binding(ls[i])));
            },
            None => {
                assert(m[k] == prev[k]);
            },
        }
    } else {
        match process_index(prev, l.pid) {
            Some(n) => {
                assert(seq![listener_binding(l)][0] == listener_binding(l));
                lemma_merge_bindings_contains(prev[n].ports, seq![listener_binding(l)], listener_binding(l));
                assert(m[n].pid == ls[i].pid && m[n].ports.contains(listener_binding(ls[i])));
            },
            None => {
                let n = prev.len() as int;
                assert(m[n].ports[0] == listener_binding(l));
                assert(m[n].pid == ls[i].pid && m[n].ports.contains(listener_binding(ls[i])));
            },
        }
    }
}

} // verus!
