//! The tray menu: which listeners it shows and how, when it must be
//! rebuilt, and what each of its entries does. Drawing the menu and running
//! the actions is the application's part.
use vstd::prelude::*;

use crate::scanner::{
    bindings_view, clone_process, opt_view, processes_view, BindingView, PortBinding, PortProcess,
    ProcessView,
};
use crate::text::{
    chars_of, chars_of_string, concat, concat_str, decimal, decimal_vec, find, find_vec, parse_u16,
    parse_u32, parse_uint, seqs, slice, split_all, split_all_vec, starts_with, starts_with_str,
    string_of,
};

verus! {

// ---------------------------------------------------------------------------
// Tray state
// ---------------------------------------------------------------------------

/// What the tray remembers between rebuilds.
#[derive(Debug)]
pub struct TrayState {
    pub user_listener_count: u32,
    pub menu_bar_mode_enabled: bool,
    pub last_menu_signature: Option<String>,
}

impl Default for TrayState {
    fn default() -> (r: Self)
        ensures
            r.user_listener_count == 0,
            !r.menu_bar_mode_enabled,
            r.last_menu_signature is None,
    {
        TrayState { user_listener_count: 0, menu_bar_mode_enabled: false, last_menu_signature: None }
    }
}

/// Records the signature of a freshly computed menu; gives whether the menu
/// must be rebuilt, which is when the signature differs from the last one.
/// The user-listener count is stored along with a new signature.
pub fn record_signature(state: &mut TrayState, signature: String, user_count: u32) -> (rebuild: bool)
    ensures
        rebuild == (opt_view(old(state).last_menu_signature) != Some(signature@)),
        rebuild ==> opt_view(final(state).last_menu_signature) == Some(signature@)
            && final(state).user_listener_count == user_count,
        !rebuild ==> opt_view(final(state).last_menu_signature) == opt_view(
            old(state).last_menu_signature,
        ) && final(state).user_listener_count == old(state).user_listener_count,
        final(state).menu_bar_mode_enabled == old(state).menu_bar_mode_enabled,
{
    let same = match &state.last_menu_signature {
        Some(last) => crate::text::eq_vec(&chars_of_string(last), &chars_of_string(&signature)),
        None => false,
    };
    if same {
        return false;
    }
    state.last_menu_signature = Some(signature);
    state.user_listener_count = user_count;
    true
}

// ---------------------------------------------------------------------------
// Labels and links
// ---------------------------------------------------------------------------

/// The port a process is shown under: its first binding's.
pub open spec fn primary_port_spec(p: ProcessView) -> Option<u16> {
    if p.ports.len() > 0 {
        Some(p.ports[0].port)
    } else {
        None
    }
}

/// The port a process is shown under.
pub fn primary_port(process: &PortProcess) -> (r: Option<u16>)
    ensures
        r == primary_port_spec(process@),
{
    if process.ports.len() > 0 {
        Some(process.ports[0].port)
    } else {
        None
    }
}

/// The folder the Finder, Terminal and Editor actions open: the project
/// root, else the working directory.
pub open spec fn directory_spec(p: ProcessView) -> Seq<char> {
    if p.project_root.len() > 0 {
        p.project_root
    } else {
        p.working_directory
    }
}

/// The folder the folder actions open (see `directory_spec`).
pub fn directory_for(process: &PortProcess) -> (r: String)
    ensures
        r@ == directory_spec(process@),
{
    if !process.project_root.as_str().is_empty() {
        process.project_root.clone()
    } else {
        process.working_directory.clone()
    }
}

/// `http://localhost:<port>`, or `https://...` when HTTPS is preferred.
pub open spec fn localhost_url_spec(port: u16, use_https: bool) -> Seq<char> {
    (if use_https {
        "https"@
    } else {
        "http"@
    }) + "://localhost:"@ + decimal(port as nat)
}

/// The localhost link to a port (see `localhost_url_spec`).
pub fn localhost_url(port: u16, use_https: bool) -> (r: String)
    ensures
        r@ == localhost_url_spec(port, use_https),
{
    let scheme = if use_https {
        chars_of("https")
    } else {
        chars_of("http")
    };
    string_of(&concat(&concat_str(&scheme, "://localhost:"), &decimal_vec(port as u64)))
}

/// `1 listener`, or `<n> listeners`.
pub open spec fn listener_label_spec(count: nat) -> Seq<char> {
    if count == 1 {
        "1 listener"@
    } else {
        decimal(count) + " listeners"@
    }
}

/// The tray tooltip for `count` user listeners.
pub fn listener_label(count: u32) -> (r: String)
    ensures
        r@ == listener_label_spec(count as nat),
{
    if count == 1 {
        string_of(&chars_of("1 listener"))
    } else {
        string_of(&concat_str(&decimal_vec(count as u64), " listeners"))
    }
}

/// The menu's header line.
pub open spec fn header_label_spec(count: nat) -> Seq<char> {
    "Port Watch — "@ + listener_label_spec(count)
}

/// The menu's header line for `count` user listeners.
pub fn header_label(count: usize) -> (r: String)
    ensures
        r@ == header_label_spec(count as nat),
{
    let tail = if count == 1 {
        chars_of("1 listener")
    } else {
        concat_str(&decimal_vec(count as u64), " listeners")
    };
    string_of(&concat(&chars_of("Port Watch — "), &tail))
}

// ---------------------------------------------------------------------------
// The listeners shown
// ---------------------------------------------------------------------------

/// The order of the menu: by primary port, processes without one last.
pub open spec fn menu_key(p: ProcessView) -> int {
    match primary_port_spec(p) {
        Some(port) => port as int,
        None => 65535,
    }
}

/// The user's processes (system services left out), in their order.
pub open spec fn user_processes(s: Seq<ProcessView>) -> Seq<ProcessView>
    decreases s.len(),
{
    if s.len() == 0 {
        seq![]
    } else if s.last().is_system_service {
        user_processes(s.drop_last())
    } else {
        user_processes(s.drop_last()).push(s.last())
    }
}

/// `x` placed after every element whose key is not larger.
pub open spec fn insert_by_key(s: Seq<ProcessView>, x: ProcessView) -> Seq<ProcessView>
    decreases s.len(),
{
    if s.len() == 0 {
        seq![x]
    } else if menu_key(s.last()) <= menu_key(x) {
        s.push(x)
    } else {
        insert_by_key(s.drop_last(), x).push(s.last())
    }
}

/// `s` ordered by `menu_key`, stably.
pub open spec fn sort_by_key(s: Seq<ProcessView>) -> Seq<ProcessView>
    decreases s.len(),
{
    if s.len() == 0 {
        seq![]
    } else {
        insert_by_key(sort_by_key(s.drop_last()), s.last())
    }
}

/// The processes the menu lists: the user's, by primary port.
pub open spec fn menu_processes(s: Seq<ProcessView>) -> Seq<ProcessView> {
    sort_by_key(user_processes(s))
}

proof fn lemma_insert_by_key(s: Seq<ProcessView>, x: ProcessView)
    requires
        forall|a: int, b: int| 0 <= a < b < s.len() ==> menu_key(s[a]) <= menu_key(s[b]),
    ensures
        insert_by_key(s, x).len() == s.len() + 1,
        forall|a: int, b: int|
            0 <= a < b < insert_by_key(s, x).len() ==> menu_key(insert_by_key(s, x)[a])
                <= menu_key(insert_by_key(s, x)[b]),
        forall|a: int|
            0 <= a < insert_by_key(s, x).len() ==> insert_by_key(s, x)[a] == x || s.contains(
                insert_by_key(s, x)[a],
            ),
    decreases s.len(),
{
    if s.len() > 0 && menu_key(s.last()) > menu_key(x) {
        let t = s.drop_last();
        lemma_insert_by_key(t, x);
        let r = insert_by_key(t, x);
        assert forall|a: int| 0 <= a < r.len() implies menu_key(r[a]) <= menu_key(s.last()) by {
            if r[a] != x {
                let c = choose|c: int| 0 <= c < t.len() && t[c] == r[a];
                assert(t[c] == s[c]);
            }
        }
        assert forall|a: int|
            0 <= a < insert_by_key(s, x).len() implies insert_by_key(s, x)[a] == x || s.contains(
            insert_by_key(s, x)[a],
        ) by {
            if a < r.len() {
                if r[a] != x {
                    let c = choose|c: int| 0 <= c < t.len() && t[c] == r[a];
                    assert(s[c] == r[a]);
                }
            } else {
                assert(s[s.len() - 1] == insert_by_key(s, x)[a]);
            }
        }
    } else if s.len() > 0 {
        assert forall|a: int|
            0 <= a < insert_by_key(s, x).len() implies insert_by_key(s, x)[a] == x || s.contains(
            insert_by_key(s, x)[a],
        ) by {
            if a < s.len() {
                assert(s[a] == insert_by_key(s, x)[a]);
            }
        }
    }
}

proof fn lemma_sort_by_key(s: Seq<ProcessView>)
    ensures
        sort_by_key(s).len() == s.len(),
        forall|a: int, b: int|
            0 <= a < b < sort_by_key(s).len() ==> menu_key(sort_by_key(s)[a]) <= menu_key(
                sort_by_key(s)[b],
            ),
        forall|a: int| 0 <= a < sort_by_key(s).len() ==> s.contains(#[trigger] sort_by_key(s)[a]),
    decreases s.len(),
{
    if s.len() > 0 {
        let t = s.drop_last();
        lemma_sort_by_key(t);
        lemma_insert_by_key(sort_by_key(t), s.last());
        let r = sort_by_key(s);
        assert forall|a: int| 0 <= a < r.len() implies s.contains(#[trigger] r[a]) by {
            if r[a] != s.last() {
                let c = choose|c: int| 0 <= c < sort_by_key(t).len() && sort_by_key(t)[c] == r[a];
                let d = choose|d: int| 0 <= d < t.len() && t[d] == sort_by_key(t)[c];
                assert(s[d] == t[d]);
            } else {
                assert(s[s.len() - 1] == r[a]);
            }
        }
    }
}

proof fn lemma_user_processes(s: Seq<ProcessView>)
    ensures
        forall|a: int| 0 <= a < user_processes(s).len() ==> !(#[trigger] user_processes(s)[a]).is_system_service,
    decreases s.len(),
{
    if s.len() > 0 {
        lemma_user_processes(s.drop_last());
    }
}

/// The tray menu lists every user listener and nothing else, in ascending
/// order of primary port (those without a port last).
pub proof fn law_menu_lists_user_listeners_by_port(s: Seq<ProcessView>)
    ensures
        menu_processes(s).len() == user_count_spec(s),
        forall|a: int, b: int|
            0 <= a < b < menu_processes(s).len() ==> menu_key(menu_processes(s)[a]) <= menu_key(
                menu_processes(s)[b],
            ),
        forall|a: int| 0 <= a < menu_processes(s).len() ==> !(#[trigger] menu_processes(s)[a]).is_system_service,
{
    lemma_sort_by_key(user_processes(s));
    lemma_user_processes(s);
    let u = user_processes(s);
    assert forall|a: int| 0 <= a < menu_processes(s).len() implies !(#[trigger] menu_processes(s)[a]).is_system_service by {
        assert(u.contains(sort_by_key(u)[a]));
        let c = choose|c: int| 0 <= c < u.len() && u[c] == sort_by_key(u)[a];
        assert(!u[c].is_system_service);
    }
}

fn menu_key_exec(p: &PortProcess) -> (k: u16)
    ensures
        k == menu_key(p@),
{
    if p.ports.len() > 0 {
        p.ports[0].port
    } else {
        65535
    }
}

/// The user's processes, by primary port (those without a port last).
pub fn listed_processes(processes: &Vec<PortProcess>) -> (r: Vec<PortProcess>)
    ensures
        processes_view(r@) == menu_processes(processes_view(processes@)),
{
    let ghost pv = processes_view(processes@);
    let mut users: Vec<PortProcess> = Vec::new();
    let mut i: usize = 0;
    assert(pv.take(0) =~= Seq::<ProcessView>::empty());
    while i < processes.len()
        invariant
            i <= processes.len(),
            pv == processes_view(processes@),
            processes_view(users@) == user_processes(pv.take(i as int)),
        decreases processes.len() - i,
    {
        assert(pv.take(i + 1).drop_last() == pv.take(i as int));
        assert(pv.take(i + 1).last() == processes@[i as int]@);
        if !processes[i].is_system_service {
            let ghost before = users@;
            users.push(clone_process(&processes[i]));
            assert(processes_view(users@) =~= processes_view(before).push(processes@[i as int]@));
        }
        i += 1;
    }
    assert(pv.take(processes.len() as int) == pv);
    let ghost orig = processes_view(users@);
    let mut out: Vec<PortProcess> = Vec::new();
    let mut j: usize = 0;
    assert(orig.take(0) =~= Seq::<ProcessView>::empty());
    while j < users.len()
        invariant
            j <= users.len(),
            orig == processes_view(users@),
            processes_view(out@) == sort_by_key(orig.take(j as int)),
        decreases users.len() - j,
    {
        assert(orig.take(j + 1).drop_last() == orig.take(j as int));
        assert(orig.take(j + 1).last() == users@[j as int]@);
        let x = clone_process(&users[j]);
        let key = menu_key_exec(&x);
        let ghost sorted = processes_view(out@);
        let mut pos: usize = out.len();
        assert(sorted.take(pos as int) == sorted);
        assert(sorted.skip(pos as int) =~= Seq::<ProcessView>::empty());
        while pos > 0 && menu_key_exec(&out[pos - 1]) > key
            invariant
                pos <= out.len(),
                sorted == processes_view(out@),
                key == menu_key(x@),
                insert_by_key(sorted, x@) == insert_by_key(sorted.take(pos as int), x@)
                    + sorted.skip(pos as int),
            decreases pos,
        {
            assert(sorted.take(pos as int).drop_last() == sorted.take(pos - 1));
            assert(sorted.take(pos as int).last() == sorted[pos - 1]);
            assert(sorted.skip(pos - 1) == seq![sorted[pos - 1]] + sorted.skip(pos as int));
            pos -= 1;
        }
        if pos == 0 {
            assert(sorted.take(0) =~= Seq::<ProcessView>::empty());
        } else {
            assert(sorted.take(pos as int).last() == sorted[pos - 1]);
        }
        out.insert(pos, x);
        assert(processes_view(out@) =~= insert_by_key(sorted, x@));
        j += 1;
    }
    assert(orig.take(users.len() as int) == orig);
    out
}

/// How many of the processes are the user's.
pub open spec fn user_count_spec(s: Seq<ProcessView>) -> nat {
    user_processes(s).len()
}

/// How many listed processes are the user's (the tooltip's count).
pub fn user_listener_count(processes: &Vec<PortProcess>) -> (r: u32)
    ensures
        r == (user_count_spec(processes_view(processes@)) as u32),
{
    let ghost pv = processes_view(processes@);
    let mut n: usize = 0;
    let mut i: usize = 0;
    assert(pv.take(0) =~= Seq::<ProcessView>::empty());
    while i < processes.len()
        invariant
            i <= processes.len(),
            pv == processes_view(processes@),
            n == user_processes(pv.take(i as int)).len(),
            n <= i,
        decreases processes.len() - i,
    {
        assert(pv.take(i + 1).drop_last() == pv.take(i as int));
        assert(pv.take(i + 1).last() == processes@[i as int]@);
        if !processes[i].is_system_service {
            n += 1;
        }
        i += 1;
    }
    assert(pv.take(processes.len() as int) == pv);
    n as u32
}

// ---------------------------------------------------------------------------
// The menu
// ---------------------------------------------------------------------------

/// The submenu of one listener.
#[derive(Debug, Clone)]
pub struct PortMenu {
    pub title: String,
    pub open_id: String,
    pub open_label: String,
    pub copy_id: String,
    /// Opening and copying need a port.
    pub has_port: bool,
    pub finder_id: String,
    pub terminal_id: String,
    pub editor_id: String,
    /// The folder actions need a folder.
    pub has_dir: bool,
    pub stop_id: String,
    /// Stopping a system service needs the user's permission.
    pub can_stop: bool,
}

pub struct PortMenuView {
    pub title: Seq<char>,
    pub open_id: Seq<char>,
    pub open_label: Seq<char>,
    pub copy_id: Seq<char>,
    pub has_port: bool,
    pub finder_id: Seq<char>,
    pub terminal_id: Seq<char>,
    pub editor_id: Seq<char>,
    pub has_dir: bool,
    pub stop_id: Seq<char>,
    pub can_stop: bool,
}

impl View for PortMenu {
    type V = PortMenuView;

    open spec fn view(&self) -> PortMenuView {
        PortMenuView {
            title: self.title@,
            open_id: self.open_id@,
            open_label: self.open_label@,
            copy_id: self.copy_id@,
            has_port: self.has_port,
            finder_id: self.finder_id@,
            terminal_id: self.terminal_id@,
            editor_id: self.editor_id@,
            has_dir: self.has_dir,
            stop_id: self.stop_id@,
            can_stop: self.can_stop,
        }
    }
}

/// `pw-<action>:<pid>`.
pub open spec fn action_id(action: Seq<char>, pid: u32) -> Seq<char> {
    "pw-"@ + action + ":"@ + decimal(pid as nat)
}

/// The submenu of a listener, titled `<port>  ·  <name>`.
pub open spec fn port_menu_spec(p: ProcessView, allow_system: bool) -> PortMenuView {
    let port = primary_port_spec(p);
    let port_or_zero: u16 = match port {
        Some(x) => x,
        None => 0,
    };
    PortMenuView {
        title: match port {
            Some(x) => decimal(x as nat) + "  ·  "@ + p.name,
            None => p.name,
        },
        open_id: action_id("open"@, p.pid) + ":"@ + decimal(port_or_zero as nat),
        open_label: match port {
            Some(x) => "Open localhost:"@ + decimal(x as nat),
            None => "Open in browser"@,
        },
        copy_id: action_id("copy"@, p.pid) + ":"@ + decimal(port_or_zero as nat),
        has_port: port is Some,
        finder_id: action_id("finder"@, p.pid),
        terminal_id: action_id("terminal"@, p.pid),
        editor_id: action_id("editor"@, p.pid),
        has_dir: directory_spec(p).len() > 0,
        stop_id: action_id("stop"@, p.pid),
        can_stop: !p.is_system_service || allow_system,
    }
}

fn action_id_exec(action: &str, pid: u32) -> (r: Vec<char>)
    ensures
        r@ == action_id(action@, pid),
{
    let a = concat(&chars_of("pw-"), &chars_of(action));
    concat(&concat_str(&a, ":"), &decimal_vec(pid as u64))
}

/// The submenu of one listener.
pub fn build_port_submenu(process: &PortProcess, allow_system: bool) -> (r: PortMenu)
    ensures
        r@ == port_menu_spec(process@, allow_system),
{
    let port = primary_port(process);
    let port_or_zero: u16 = match port {
        Some(x) => x,
        None => 0,
    };
    let zero = decimal_vec(port_or_zero as u64);
    let title = match port {
        Some(x) => string_of(
            &concat(&concat_str(&decimal_vec(x as u64), "  ·  "), &chars_of_string(&process.name)),
        ),
        None => process.name.clone(),
    };
    let open_label = match port {
        Some(x) => string_of(&concat(&chars_of("Open localhost:"), &decimal_vec(x as u64))),
        None => string_of(&chars_of("Open in browser")),
    };
    let dir = directory_for(process);
    PortMenu {
        title,
        open_id: string_of(&concat(&concat_str(&action_id_exec("open", process.pid), ":"), &zero)),
        open_label,
        copy_id: string_of(&concat(&concat_str(&action_id_exec("copy", process.pid), ":"), &zero)),
        has_port: port.is_some(),
        finder_id: string_of(&action_id_exec("finder", process.pid)),
        terminal_id: string_of(&action_id_exec("terminal", process.pid)),
        editor_id: string_of(&action_id_exec("editor", process.pid)),
        has_dir: !dir.as_str().is_empty(),
        stop_id: string_of(&action_id_exec("stop", process.pid)),
        can_stop: !process.is_system_service || allow_system,
    }
}

/// The whole tray menu: a header counting the user's listeners, one
/// submenu per listener (the menu says none listen when there are none),
/// then the window, refresh, menu-bar-mode and quit entries.
pub struct TrayMenu {
    pub header: String,
    pub ports: Vec<PortMenu>,
    pub menu_bar_enabled: bool,
}

/// The tray menu for a scan.
pub fn build_menu(processes: &Vec<PortProcess>, allow_system: bool, menu_bar_enabled: bool) -> (r:
    TrayMenu)
    ensures
        r.header@ == header_label_spec(menu_processes(processes_view(processes@)).len()),
        r.ports@.len() == menu_processes(processes_view(processes@)).len(),
        forall|i: int|
            0 <= i < r.ports@.len() ==> (#[trigger] r.ports@[i])@ == port_menu_spec(
                menu_processes(processes_view(processes@))[i],
                allow_system,
            ),
        r.menu_bar_enabled == menu_bar_enabled,
{
    let listed = listed_processes(processes);
    let header = header_label(listed.len());
    let mut ports: Vec<PortMenu> = Vec::new();
    let mut i: usize = 0;
    while i < listed.len()
        invariant
            i <= listed.len(),
            processes_view(listed@) == menu_processes(processes_view(processes@)),
            ports@.len() == i,
            forall|j: int|
                0 <= j < i ==> (#[trigger] ports@[j])@ == port_menu_spec(
                    processes_view(listed@)[j],
                    allow_system,
                ),
        decreases listed.len() - i,
    {
        ports.push(build_port_submenu(&listed[i], allow_system));
        i += 1;
    }
    TrayMenu { header, ports, menu_bar_enabled }
}

// ---------------------------------------------------------------------------
// The menu's signature
// ---------------------------------------------------------------------------

/// `a` sorts before `b`: the order of `String`, comparing characters by
/// code point (which is the order of their UTF-8 bytes).
pub open spec fn text_lt(a: Seq<char>, b: Seq<char>) -> bool
    decreases a.len(),
{
    if a.len() == 0 {
        b.len() > 0
    } else if b.len() == 0 {
        false
    } else if a[0] != b[0] {
        a[0] < b[0]
    } else {
        text_lt(a.drop_first(), b.drop_first())
    }
}

fn text_lt_exec(a: &Vec<char>, b: &Vec<char>) -> (r: bool)
    ensures
        r == text_lt(a@, b@),
{
    let mut i: usize = 0;
    assert(a@.skip(0) == a@);
    assert(b@.skip(0) == b@);
    while i < a.len() && i < b.len() && a[i] == b[i]
        invariant
            i <= a.len(),
            i <= b.len(),
            text_lt(a@, b@) == text_lt(a@.skip(i as int), b@.skip(i as int)),
        decreases a.len() - i,
    {
        assert(a@.skip(i as int).drop_first() == a@.skip(i + 1));
        assert(b@.skip(i as int).drop_first() == b@.skip(i + 1));
        i += 1;
    }
    if i == a.len() {
        i < b.len()
    } else if i == b.len() {
        false
    } else {
        assert(a@.skip(i as int)[0] == a@[i as int]);
        assert(b@.skip(i as int)[0] == b@[i as int]);
        a[i] < b[i]
    }
}

proof fn lemma_text_lt_irreflexive(a: Seq<char>)
    ensures
        !text_lt(a, a),
    decreases a.len(),
{
    if a.len() > 0 {
        lemma_text_lt_irreflexive(a.drop_first());
    }
}

proof fn lemma_text_lt_transitive(a: Seq<char>, b: Seq<char>, c: Seq<char>)
    requires
        text_lt(a, b),
        text_lt(b, c),
    ensures
        text_lt(a, c),
    decreases a.len(),
{
    if a.len() > 0 && b.len() > 0 && c.len() > 0 && a[0] == b[0] && b[0] == c[0] {
        lemma_text_lt_transitive(a.drop_first(), b.drop_first(), c.drop_first());
    }
}

proof fn lemma_text_lt_total(a: Seq<char>, b: Seq<char>)
    ensures
        a == b || text_lt(a, b) || text_lt(b, a),
    decreases a.len(),
{
    if a.len() > 0 && b.len() > 0 && a[0] == b[0] {
        lemma_text_lt_total(a.drop_first(), b.drop_first());
        if a.drop_first() == b.drop_first() {
            assert(a =~= seq![a[0]] + a.drop_first());
            assert(b =~= seq![b[0]] + b.drop_first());
        }
    } else if a.len() == 0 && b.len() == 0 {
        assert(a =~= b);
    }
}

/// The texts are in `String` order.
pub open spec fn texts_sorted(s: Seq<Seq<char>>) -> bool {
    forall|i: int, j: int| 0 <= i < j < s.len() ==> !text_lt(#[trigger] s[j], #[trigger] s[i])
}

/// `x` placed after every element of `s` it does not sort before.
pub open spec fn insert_text(s: Seq<Seq<char>>, x: Seq<char>) -> Seq<Seq<char>>
    decreases s.len(),
{
    if s.len() == 0 {
        seq![x]
    } else if !text_lt(x, s.last()) {
        s.push(x)
    } else {
        insert_text(s.drop_last(), x).push(s.last())
    }
}

/// `s` sorted (`slice::sort` on strings).
pub open spec fn sort_texts(s: Seq<Seq<char>>) -> Seq<Seq<char>>
    decreases s.len(),
{
    if s.len() == 0 {
        seq![]
    } else {
        insert_text(sort_texts(s.drop_last()), s.last())
    }
}

proof fn lemma_insert_text(s: Seq<Seq<char>>, x: Seq<char>)
    requires
        texts_sorted(s),
    ensures
        texts_sorted(insert_text(s, x)),
        insert_text(s, x).to_multiset() =~= s.to_multiset().insert(x),
        forall|a: int|
            0 <= a < insert_text(s, x).len() ==> insert_text(s, x)[a] == x || s.contains(
                insert_text(s, x)[a],
            ),
        insert_text(s, x).len() == s.len() + 1,
    decreases s.len(),
{
    broadcast use vstd::seq_lib::group_to_multiset_ensures;
    broadcast use vstd::multiset::group_multiset_axioms;

    if s.len() == 0 {
        assert(seq![x] =~= s.push(x));
    } else if !text_lt(x, s.last()) {
        let r = s.push(x);
        assert forall|i: int, j: int| 0 <= i < j < r.len() implies !text_lt(#[trigger] r[j], #[trigger] r[i]) by {
            if j == r.len() - 1 {
                assert(r[j] == x);
                if i < s.len() - 1 {
                    assert(!text_lt(s[s.len() - 1], s[i]));
                    lemma_text_lt_total(s[i], s.last());
                    if text_lt(x, s[i]) {
                        if s[i] != s.last() {
                            lemma_text_lt_transitive(x, s[i], s.last());
                        }
                    }
                }
            }
        }
        assert forall|a: int| 0 <= a < r.len() implies r[a] == x || s.contains(r[a]) by {
            if a < s.len() {
                assert(s[a] == r[a]);
            }
        }
    } else {
        let t = s.drop_last();
        let l = s.last();
        assert forall|i: int, j: int| 0 <= i < j < t.len() implies !text_lt(#[trigger] t[j], #[trigger] t[i]) by {
            assert(t[i] == s[i] && t[j] == s[j]);
        }
        lemma_insert_text(t, x);
        let r1 = insert_text(t, x);
        let r = r1.push(l);
        assert(insert_text(s, x) == r);
        assert forall|a: int| 0 <= a < r1.len() implies !text_lt(l, #[trigger] r1[a]) by {
            if r1[a] == x {
                if text_lt(l, x) {
                    lemma_text_lt_transitive(x, l, x);
                    lemma_text_lt_irreflexive(x);
                }
            } else {
                let c = choose|c: int| 0 <= c < t.len() && t[c] == r1[a];
                assert(s[c] == t[c]);
                assert(!text_lt(s[s.len() - 1], s[c]));
            }
        }
        assert forall|i: int, j: int| 0 <= i < j < r.len() implies !text_lt(#[trigger] r[j], #[trigger] r[i]) by {
            if j == r.len() - 1 {
                assert(r[j] == l);
                assert(r[i] == r1[i]);
            } else {
                assert(r[i] == r1[i] && r[j] == r1[j]);
            }
        }
        assert forall|a: int| 0 <= a < r.len() implies r[a] == x || s.contains(r[a]) by {
            if a < r1.len() {
                assert(r[a] == r1[a]);
                if r1[a] != x {
                    let c = choose|c: int| 0 <= c < t.len() && t[c] == r1[a];
                    assert(s[c] == t[c]);
                }
            } else {
                assert(s[s.len() - 1] == r[a]);
            }
        }
        assert(s =~= t.push(l));
        assert(r.to_multiset() =~= r1.to_multiset().insert(l));
        assert(s.to_multiset() =~= t.to_multiset().insert(l));
    }
}

/// Sorting puts texts in `String` order and neither adds nor loses any.
pub proof fn law_sort_texts_sorts(s: Seq<Seq<char>>)
    ensures
        texts_sorted(sort_texts(s)),
        sort_texts(s).to_multiset() =~= s.to_multiset(),
    decreases s.len(),
{
    broadcast use vstd::seq_lib::group_to_multiset_ensures;

    if s.len() == 0 {
        assert(sort_texts(s) =~= s);
    } else {
        law_sort_texts_sorts(s.drop_last());
        lemma_insert_text(sort_texts(s.drop_last()), s.last());
        assert(s =~= s.drop_last().push(s.last()));
    }
}

proof fn lemma_sorted_unique(a: Seq<Seq<char>>, b: Seq<Seq<char>>)
    requires
        texts_sorted(a),
        texts_sorted(b),
        a.to_multiset() =~= b.to_multiset(),
    ensures
        a == b,
    decreases a.len(),
{
    broadcast use vstd::seq_lib::group_to_multiset_ensures;
    broadcast use vstd::multiset::group_multiset_axioms;

    assert(a.len() == a.to_multiset().len() && b.len() == b.to_multiset().len());
    if a.len() == 0 {
        assert(a =~= b);
    } else {
        let x = a.last();
        let y = b.last();
        assert(b.to_multiset().count(y) > 0);
        assert(a.contains(y));
        let k = choose|k: int| 0 <= k < a.len() && a[k] == y;
        assert(a.to_multiset().count(x) > 0);
        assert(b.contains(x));
        let m = choose|m: int| 0 <= m < b.len() && b[m] == x;
        if k < a.len() - 1 {
            assert(!text_lt(a[a.len() - 1], a[k]));
        }
        if m < b.len() - 1 {
            assert(!text_lt(b[b.len() - 1], b[m]));
        }
        lemma_text_lt_total(x, y);
        assert(x == y);
        let a1 = a.drop_last();
        let b1 = b.drop_last();
        assert(a =~= a1.push(x));
        assert(b =~= b1.push(x));
        assert(a1.to_multiset().insert(x) =~= b1.to_multiset().insert(x));
        assert(a1.to_multiset() =~= b1.to_multiset()) by {
            assert forall|v: Seq<char>| a1.to_multiset().count(v) == b1.to_multiset().count(v) by {
                assert(a1.to_multiset().insert(x).count(v) == b1.to_multiset().insert(x).count(v));
            }
        }
        assert forall|i: int, j: int| 0 <= i < j < a1.len() implies !text_lt(#[trigger] a1[j], #[trigger] a1[i]) by {
            assert(a1[i] == a[i] && a1[j] == a[j]);
        }
        assert forall|i: int, j: int| 0 <= i < j < b1.len() implies !text_lt(#[trigger] b1[j], #[trigger] b1[i]) by {
            assert(b1[i] == b[i] && b1[j] == b[j]);
        }
        lemma_sorted_unique(a1, b1);
    }
}

/// Sorts texts in `String` order.
pub fn sort_texts_vec(v: Vec<Vec<char>>) -> (r: Vec<Vec<char>>)
    ensures
        seqs(r@) == sort_texts(seqs(v@)),
{
    let ghost orig = seqs(v@);
    let mut out: Vec<Vec<char>> = Vec::new();
    let mut j: usize = 0;
    assert(orig.take(0) =~= Seq::<Seq<char>>::empty());
    while j < v.len()
        invariant
            j <= v.len(),
            orig == seqs(v@),
            seqs(out@) == sort_texts(orig.take(j as int)),
        decreases v.len() - j,
    {
        assert(orig.take(j + 1).drop_last() == orig.take(j as int));
        assert(orig.take(j + 1).last() == v@[j as int]@);
        let x = v[j].clone();
        let ghost sorted = seqs(out@);
        let mut pos: usize = out.len();
        assert(sorted.take(pos as int) == sorted);
        assert(sorted.skip(pos as int) =~= Seq::<Seq<char>>::empty());
        while pos > 0 && text_lt_exec(&x, &out[pos - 1])
            invariant
                pos <= out.len(),
                sorted == seqs(out@),
                insert_text(sorted, x@) == insert_text(sorted.take(pos as int), x@) + sorted.skip(
                    pos as int,
                ),
            decreases pos,
        {
            assert(sorted.take(pos as int).drop_last() == sorted.take(pos - 1));
            assert(sorted.take(pos as int).last() == sorted[pos - 1]);
            assert(sorted.skip(pos - 1) == seq![sorted[pos - 1]] + sorted.skip(pos as int));
            pos -= 1;
        }
        if pos == 0 {
            assert(sorted.take(0) =~= Seq::<Seq<char>>::empty());
        } else {
            assert(sorted.take(pos as int).last() == sorted[pos - 1]);
        }
        out.insert(pos, x);
        assert(seqs(out@) =~= insert_text(sorted, x@));
        j += 1;
    }
    assert(orig.take(v.len() as int) == orig);
    out
}

/// The texts joined with `sep` between them.
pub open spec fn join(s: Seq<Seq<char>>, sep: Seq<char>) -> Seq<char>
    decreases s.len(),
{
    if s.len() == 0 {
        seq![]
    } else if s.len() == 1 {
        s[0]
    } else {
        join(s.drop_last(), sep) + sep + s.last()
    }
}

fn join_vec(v: &Vec<Vec<char>>, sep: &str) -> (r: Vec<char>)
    ensures
        r@ == join(seqs(v@), sep@),
{
    let ghost sv = seqs(v@);
    let mut r: Vec<char> = Vec::new();
    let mut i: usize = 0;
    assert(sv.take(0) =~= Seq::<Seq<char>>::empty());
    while i < v.len()
        invariant
            i <= v.len(),
            sv == seqs(v@),
            r@ == join(sv.take(i as int), sep@),
        decreases v.len() - i,
    {
        assert(sv.take(i + 1).drop_last() == sv.take(i as int));
        assert(sv.take(i + 1).last() == v@[i as int]@);
        if i == 0 {
            assert(sv.take(1)[0] == v@[0]@);
            r = v[0].clone();
        } else {
            r = concat(&concat_str(&r, sep), &v[i]);
        }
        i += 1;
    }
    assert(sv.take(v.len() as int) == sv);
    r
}

/// `true` or `false`.
pub open spec fn bool_text(b: bool) -> Seq<char> {
    if b {
        "true"@
    } else {
        "false"@
    }
}

/// `<address>:<port>/<protocol>`.
pub open spec fn binding_text(b: BindingView) -> Seq<char> {
    b.address + ":"@ + decimal(b.port as nat) + "/"@ + b.protocol
}

/// `<pid>|<name>|<sorted sockets, comma-separated>|<folder>`.
pub open spec fn process_text(p: ProcessView) -> Seq<char> {
    decimal(p.pid as nat) + "|"@ + p.name + "|"@ + join(
        sort_texts(p.ports.map_values(|b: BindingView| binding_text(b))),
        ","@,
    ) + "|"@ + directory_spec(p)
}

/// Everything the menu shows, as one text: the user's listeners (each as
/// `process_text`, sorted, `;`-separated), then whether system actions and
/// menu bar mode are on.
pub open spec fn signature_spec(s: Seq<ProcessView>, allow_system: bool, menu_bar_enabled: bool) -> Seq<char> {
    join(sort_texts(user_processes(s).map_values(|p: ProcessView| process_text(p))), ";"@)
        + "|allow="@ + bool_text(allow_system) + "|mbm="@ + bool_text(menu_bar_enabled)
}

fn bool_text_exec(b: bool) -> (r: Vec<char>)
    ensures
        r@ == bool_text(b),
{
    if b {
        chars_of("true")
    } else {
        chars_of("false")
    }
}

fn binding_text_exec(b: &PortBinding) -> (r: Vec<char>)
    ensures
        r@ == binding_text(b@),
{
    let a = concat_str(&chars_of_string(&b.address), ":");
    let a = concat_str(&concat(&a, &decimal_vec(b.port as u64)), "/");
    concat(&a, &chars_of_string(&b.protocol))
}

fn process_text_exec(p: &PortProcess) -> (r: Vec<char>)
    ensures
        r@ == process_text(p@),
{
    let mut parts: Vec<Vec<char>> = Vec::new();
    let mut i: usize = 0;
    let ghost bv = bindings_view(p.ports@);
    while i < p.ports.len()
        invariant
            i <= p.ports.len(),
            bv == bindings_view(p.ports@),
            seqs(parts@) == bv.take(i as int).map_values(|b: BindingView| binding_text(b)),
        decreases p.ports.len() - i,
    {
        let ghost before = seqs(parts@);
        parts.push(binding_text_exec(&p.ports[i]));
        assert(bv.take(i + 1) =~= bv.take(i as int).push(bv[i as int]));
        assert(seqs(parts@) =~= before.push(binding_text(bv[i as int])));
        assert(bv.take(i + 1).map_values(|b: BindingView| binding_text(b)) =~= bv.take(
            i as int,
        ).map_values(|b: BindingView| binding_text(b)).push(binding_text(bv[i as int])));
        i += 1;
    }
    assert(bv.take(p.ports.len() as int) == bv);
    let sorted = sort_texts_vec(parts);
    let mut r = concat_str(&decimal_vec(p.pid as u64), "|");
    r = concat_str(&concat(&r, &chars_of_string(&p.name)), "|");
    r = concat_str(&concat(&r, &join_vec(&sorted, ",")), "|");
    concat(&r, &chars_of_string(&directory_for(p)))
}

/// The menu's signature (see `signature_spec`): the menu is rebuilt only
/// when it changes.
pub fn menu_signature(processes: &Vec<PortProcess>, allow_system: bool, menu_bar_enabled: bool) -> (r:
    String)
    ensures
        r@ == signature_spec(processes_view(processes@), allow_system, menu_bar_enabled),
{
    let ghost pv = processes_view(processes@);
    let mut parts: Vec<Vec<char>> = Vec::new();
    let mut i: usize = 0;
    assert(pv.take(0) =~= Seq::<ProcessView>::empty());
    while i < processes.len()
        invariant
            i <= processes.len(),
            pv == processes_view(processes@),
            seqs(parts@) == user_processes(pv.take(i as int)).map_values(
                |p: ProcessView| process_text(p),
            ),
        decreases processes.len() - i,
    {
        assert(pv.take(i + 1).drop_last() == pv.take(i as int));
        assert(pv.take(i + 1).last() == processes@[i as int]@);
        if !processes[i].is_system_service {
            let ghost before = seqs(parts@);
            parts.push(process_text_exec(&processes[i]));
            assert(seqs(parts@) =~= before.push(process_text(processes@[i as int]@)));
            assert(user_processes(pv.take(i + 1)).map_values(|p: ProcessView| process_text(p))
                =~= user_processes(pv.take(i as int)).map_values(|p: ProcessView| process_text(p)).push(
                process_text(processes@[i as int]@),
            ));
        }
        i += 1;
    }
    assert(pv.take(processes.len() as int) == pv);
    let sorted = sort_texts_vec(parts);
    let mut r = concat_str(&join_vec(&sorted, ";"), "|allow=");
    r = concat_str(&concat(&r, &bool_text_exec(allow_system)), "|mbm=");
    string_of(&concat(&r, &bool_text_exec(menu_bar_enabled)))
}

// ---------------------------------------------------------------------------
// Menu events
// ---------------------------------------------------------------------------

/// What a click on a menu entry asks for.
#[derive(Debug, Clone)]
pub enum MenuEvent {
    OpenWindow,
    Refresh,
    ToggleMenuBarMode,
    Quit,
    /// An action on one listener: `pw-<action>:<pid>[:<port>]`.
    Port { action: String, pid: u32, port: Option<u16> },
    /// Anything else.
    Ignored,
}

pub enum MenuEventView {
    OpenWindow,
    Refresh,
    ToggleMenuBarMode,
    Quit,
    Port { action: Seq<char>, pid: u32, port: Option<u16> },
    Ignored,
}

impl View for MenuEvent {
    type V = MenuEventView;

    open spec fn view(&self) -> MenuEventView {
        match self {
            MenuEvent::OpenWindow => MenuEventView::OpenWindow,
            MenuEvent::Refresh => MenuEventView::Refresh,
            MenuEvent::ToggleMenuBarMode => MenuEventView::ToggleMenuBarMode,
            MenuEvent::Quit => MenuEventView::Quit,
            MenuEvent::Port { action, pid, port } => MenuEventView::Port {
                action: action@,
                pid: *pid,
                port: *port,
            },
            MenuEvent::Ignored => MenuEventView::Ignored,
        }
    }
}

/// A parsed pid as a `u32`.
pub open spec fn to_u32(o: Option<int>) -> Option<u32> {
    match o {
        Some(n) => Some(n as u32),
        None => None,
    }
}

/// A parsed port as a `u16`.
pub open spec fn to_u16(o: Option<int>) -> Option<u16> {
    match o {
        Some(n) => Some(n as u16),
        None => None,
    }
}

/// The action a port entry's id names: the part before the first `:`, which
/// must start with `pw-`; then the pid (required) and the port (optional),
/// `:`-separated.
pub open spec fn port_event_spec(id: Seq<char>) -> MenuEventView {
    match find(id, ":"@) {
        None => MenuEventView::Ignored,
        Some(i) => {
            let action = id.take(i);
            let fields = split_all(id.skip(i + 1), ":"@);
            if !starts_with(action, "pw-"@) {
                MenuEventView::Ignored
            } else {
                match to_u32(parse_uint(fields[0], 4294967295)) {
                    None => MenuEventView::Ignored,
                    Some(pid) => MenuEventView::Port {
                        action,
                        pid,
                        port: if fields.len() > 1 {
                            to_u16(parse_uint(fields[1], 65535))
                        } else {
                            None
                        },
                    },
                }
            }
        },
    }
}

/// What a menu entry's id asks for.
pub open spec fn menu_event_spec(id: Seq<char>) -> MenuEventView {
    if id == "tray-open-window"@ {
        MenuEventView::OpenWindow
    } else if id == "tray-refresh"@ {
        MenuEventView::Refresh
    } else if id == "tray-menu-bar-mode"@ {
        MenuEventView::ToggleMenuBarMode
    } else if id == "tray-quit"@ {
        MenuEventView::Quit
    } else {
        port_event_spec(id)
    }
}

/// Reads a menu entry's id.
pub fn menu_event(id: &str) -> (r: MenuEvent)
    ensures
        r@ == menu_event_spec(id@),
{
    let v = chars_of(id);
    if crate::text::eq_str(&v, "tray-open-window") {
        return MenuEvent::OpenWindow;
    }
    if crate::text::eq_str(&v, "tray-refresh") {
        return MenuEvent::Refresh;
    }
    if crate::text::eq_str(&v, "tray-menu-bar-mode") {
        return MenuEvent::ToggleMenuBarMode;
    }
    if crate::text::eq_str(&v, "tray-quit") {
        return MenuEvent::Quit;
    }
    let colon = chars_of(":");
    proof {
        reveal_strlit(":");
    }
    let i = match find_vec(&v, &colon) {
        None => {
            return MenuEvent::Ignored;
        },
        Some(i) => i,
    };
    proof {
        crate::text::lemma_find_from(v@, colon@, 0);
    }
    let action = slice(&v, 0, i);
    assert(i < v.len());
    let start: usize = i + 1;
    let rest = slice(&v, start, v.len());
    let fields = split_all_vec(&rest, &colon);
    if !starts_with_str(&action, "pw-") {
        return MenuEvent::Ignored;
    }
    proof {
        crate::text::lemma_split_all_nonempty(rest@, colon@);
    }
    let pid = match parse_u32(&fields[0]) {
        None => {
            return MenuEvent::Ignored;
        },
        Some(p) => p,
    };
    let port = if fields.len() > 1 {
        parse_u16(&fields[1])
    } else {
        None
    };
    MenuEvent::Port { action: string_of(&action), pid, port }
}

// ---------------------------------------------------------------------------
// Port actions
// ---------------------------------------------------------------------------

/// What an action on a listener comes down to.
#[derive(Debug, Clone)]
pub enum PortAction {
    /// Open this URL in the browser.
    OpenUrl(String),
    /// Put this URL on the clipboard.
    CopyUrl(String),
    /// Show this folder in the file manager.
    RevealFolder(String),
    /// Open a terminal in this folder.
    OpenTerminal(String),
    /// Open this folder in this editor.
    OpenEditor { dir: String, editor: String },
    /// Ask with this message, then stop the process gracefully if confirmed.
    ConfirmStop { pid: u32, message: String },
    /// Nothing to do.
    Nothing,
}

pub enum PortActionView {
    OpenUrl(Seq<char>),
    CopyUrl(Seq<char>),
    RevealFolder(Seq<char>),
    OpenTerminal(Seq<char>),
    OpenEditor { dir: Seq<char>, editor: Seq<char> },
    ConfirmStop { pid: u32, message: Seq<char> },
    Nothing,
}

impl View for PortAction {
    type V = PortActionView;

    open spec fn view(&self) -> PortActionView {
        match self {
            PortAction::OpenUrl(u) => PortActionView::OpenUrl(u@),
            PortAction::CopyUrl(u) => PortActionView::CopyUrl(u@),
            PortAction::RevealFolder(d) => PortActionView::RevealFolder(d@),
            PortAction::OpenTerminal(d) => PortActionView::OpenTerminal(d@),
            PortAction::OpenEditor { dir, editor } => PortActionView::OpenEditor {
                dir: dir@,
                editor: editor@,
            },
            PortAction::ConfirmStop { pid, message } => PortActionView::ConfirmStop {
                pid: *pid,
                message: message@,
            },
            PortAction::Nothing => PortActionView::Nothing,
        }
    }
}

/// The plain values of an optional process.
pub open spec fn opt_process_view(p: Option<PortProcess>) -> Option<ProcessView> {
    match p {
        Some(x) => Some(x@),
        None => None,
    }
}

/// The folder of the acted-on process, which must have one.
pub open spec fn require_directory_spec(p: Option<ProcessView>) -> Result<Seq<char>, Seq<char>> {
    match p {
        Some(x) => if directory_spec(x).len() > 0 {
            Ok(directory_spec(x))
        } else {
            Err("No folder available for this process"@)
        },
        None => Err("No folder available for this process"@),
    }
}

/// The folder of the acted-on process, or why there is none.
pub fn require_directory(process: &Option<PortProcess>) -> (r: Result<String, String>)
    ensures
        crate::platform::path_validation::result_view(r) == require_directory_spec(
            opt_process_view(*process),
        ),
{
    match process {
        Some(p) => {
            let d = directory_for(p);
            if !d.as_str().is_empty() {
                return Ok(d);
            }
        },
        None => {},
    }
    Err(string_of(&chars_of("No folder available for this process")))
}

/// The question asked before stopping a process; it warns when the
/// process is a system service.
pub open spec fn confirm_message_spec(p: Option<ProcessView>) -> Seq<char> {
    let name = match p {
        Some(x) => x.name,
        None => "this process"@,
    };
    let is_system = match p {
        Some(x) => x.is_system_service,
        None => false,
    };
    if is_system {
        name + " is a system service. Stopping it may affect your system.\n\nStop it anyway?"@
    } else {
        "Stop "@ + name + "? This terminates the process and frees its ports."@
    }
}

/// The question asked before stopping (see `confirm_message_spec`).
pub fn confirm_stop_message(process: &Option<PortProcess>) -> (r: String)
    ensures
        r@ == confirm_message_spec(opt_process_view(*process)),
{
    let (name, is_system) = match process {
        Some(p) => (chars_of_string(&p.name), p.is_system_service),
        None => (chars_of("this process"), false),
    };
    if is_system {
        string_of(
            &concat_str(
                &name,
                " is a system service. Stopping it may affect your system.\n\nStop it anyway?",
            ),
        )
    } else {
        string_of(
            &concat_str(
                &concat(&chars_of("Stop "), &name),
                "? This terminates the process and frees its ports.",
            ),
        )
    }
}

/// The plain values of a planned action or its error.
pub open spec fn action_result_view(r: Result<PortAction, String>) -> Result<PortActionView, Seq<char>> {
    match r {
        Ok(a) => Ok(a@),
        Err(e) => Err(e@),
    }
}

/// What an action on the listener `pid` comes down to: the open and copy
/// actions need a port, the folder actions a folder; stopping asks first.
pub open spec fn port_action_spec(
    action: Seq<char>,
    pid: u32,
    port: Option<u16>,
    process: Option<ProcessView>,
    use_https: bool,
    editor: Seq<char>,
) -> Result<PortActionView, Seq<char>> {
    if action == "pw-open"@ || action == "pw-copy"@ {
        match port {
            None => Err("No port available"@),
            Some(p) => if action == "pw-open"@ {
                Ok(PortActionView::OpenUrl(localhost_url_spec(p, use_https)))
            } else {
                Ok(PortActionView::CopyUrl(localhost_url_spec(p, use_https)))
            },
        }
    } else if action == "pw-finder"@ || action == "pw-terminal"@ || action == "pw-editor"@ {
        match require_directory_spec(process) {
            Err(e) => Err(e),
            Ok(d) => if action == "pw-finder"@ {
                Ok(PortActionView::RevealFolder(d))
            } else if action == "pw-terminal"@ {
                Ok(PortActionView::OpenTerminal(d))
            } else {
                Ok(PortActionView::OpenEditor { dir: d, editor })
            },
        }
    } else if action == "pw-stop"@ {
        Ok(PortActionView::ConfirmStop { pid, message: confirm_message_spec(process) })
    } else {
        Ok(PortActionView::Nothing)
    }
}

/// Each tray action on a listener with a folder (its project root, else its
/// working directory) does what its id names, each a different action:
/// `pw-finder` reveals the folder, `pw-terminal` opens a terminal in it,
/// `pw-editor` opens it in the chosen editor; with a port, `pw-open` opens
/// and `pw-copy` copies `http(s)://localhost:<port>`; `pw-stop` asks to
/// confirm stopping that pid.
pub proof fn law_port_actions_do_what_they_name(
    pid: u32,
    port: u16,
    p: ProcessView,
    use_https: bool,
    editor: Seq<char>,
)
    requires
        (if p.project_root.len() > 0 {
            p.project_root
        } else {
            p.working_directory
        }).len() > 0,
    ensures
        ({
            let d = if p.project_root.len() > 0 {
                p.project_root
            } else {
                p.working_directory
            };
            let url = (if use_https {
                "https://localhost:"@
            } else {
                "http://localhost:"@
            }) + decimal(port as nat);
            &&& port_action_spec("pw-finder"@, pid, Some(port), Some(p), use_https, editor) == Ok::<
                PortActionView,
                Seq<char>,
            >(PortActionView::RevealFolder(d))
            &&& port_action_spec("pw-terminal"@, pid, Some(port), Some(p), use_https, editor)
                == Ok::<PortActionView, Seq<char>>(PortActionView::OpenTerminal(d))
            &&& port_action_spec("pw-editor"@, pid, Some(port), Some(p), use_https, editor) == Ok::<
                PortActionView,
                Seq<char>,
            >(PortActionView::OpenEditor { dir: d, editor })
            &&& port_action_spec("pw-open"@, pid, Some(port), Some(p), use_https, editor) == Ok::<
                PortActionView,
                Seq<char>,
            >(PortActionView::OpenUrl(url))
            &&& port_action_spec("pw-copy"@, pid, Some(port), Some(p), use_https, editor) == Ok::<
                PortActionView,
                Seq<char>,
            >(PortActionView::CopyUrl(url))
            &&& port_action_spec("pw-stop"@, pid, Some(port), Some(p), use_https, editor) matches Ok(
                PortActionView::ConfirmStop { pid: q, .. },
            ) && q == pid
        }),
{
    let d = if p.project_root.len() > 0 {
        p.project_root
    } else {
        p.working_directory
    };
    let url = (if use_https {
        "https://localhost:"@
    } else {
        "http://localhost:"@
    }) + decimal(port as nat);
    assert(require_directory_spec(Some(p)) == Ok::<Seq<char>, Seq<char>>(d));
    assert(port_action_spec("pw-finder"@, pid, Some(port), Some(p), use_https, editor) == Ok::<
        PortActionView,
        Seq<char>,
    >(PortActionView::RevealFolder(d))) by {
        reveal_strlit("pw-finder");
        reveal_strlit("pw-open");
        reveal_strlit("pw-copy");
        assert("pw-finder"@.len() != "pw-open"@.len());
        assert("pw-finder"@.len() != "pw-copy"@.len());
    }
    assert(port_action_spec("pw-terminal"@, pid, Some(port), Some(p), use_https, editor) == Ok::<
        PortActionView,
        Seq<char>,
    >(PortActionView::OpenTerminal(d))) by {
        reveal_strlit("pw-terminal");
        reveal_strlit("pw-finder");
        reveal_strlit("pw-open");
        reveal_strlit("pw-copy");
        assert("pw-terminal"@.len() != "pw-open"@.len());
        assert("pw-terminal"@.len() != "pw-copy"@.len());
        assert("pw-terminal"@.len() != "pw-finder"@.len());
    }
    assert(port_action_spec("pw-editor"@, pid, Some(port), Some(p), use_https, editor) == Ok::<
        PortActionView,
        Seq<char>,
    >(PortActionView::OpenEditor { dir: d, editor })) by {
        reveal_strlit("pw-editor");
        reveal_strlit("pw-terminal");
        reveal_strlit("pw-finder");
        reveal_strlit("pw-open");
        reveal_strlit("pw-copy");
        assert("pw-editor"@.len() != "pw-open"@.len());
        assert("pw-editor"@.len() != "pw-copy"@.len());
        assert("pw-editor"@.len() != "pw-terminal"@.len());
        assert("pw-editor"@[3] != "pw-finder"@[3]);
    }
    assert(port_action_spec("pw-open"@, pid, Some(port), Some(p), use_https, editor) == Ok::<
        PortActionView,
        Seq<char>,
    >(PortActionView::OpenUrl(url))) by {
        reveal_strlit("https");
        reveal_strlit("http");
        reveal_strlit("://localhost:");
        reveal_strlit("https://localhost:");
        reveal_strlit("http://localhost:");
        assert(localhost_url_spec(port, use_https) =~= url);
    }
    assert(port_action_spec("pw-copy"@, pid, Some(port), Some(p), use_https, editor) == Ok::<
        PortActionView,
        Seq<char>,
    >(PortActionView::CopyUrl(url))) by {
        reveal_strlit("pw-copy");
        reveal_strlit("pw-open");
        assert("pw-copy"@[3] != "pw-open"@[3]);
        reveal_strlit("https");
        reveal_strlit("http");
        reveal_strlit("://localhost:");
        reveal_strlit("https://localhost:");
        reveal_strlit("http://localhost:");
        assert(localhost_url_spec(port, use_https) =~= url);
    }
    assert(port_action_spec("pw-stop"@, pid, Some(port), Some(p), use_https, editor) matches Ok(
        PortActionView::ConfirmStop { pid: q, .. },
    ) && q == pid) by {
        reveal_strlit("pw-stop");
        reveal_strlit("pw-editor");
        reveal_strlit("pw-terminal");
        reveal_strlit("pw-finder");
        reveal_strlit("pw-open");
        reveal_strlit("pw-copy");
        assert("pw-stop"@.len() != "pw-terminal"@.len());
        assert("pw-stop"@.len() != "pw-finder"@.len());
        assert("pw-stop"@.len() != "pw-editor"@.len());
        assert("pw-stop"@[3] != "pw-open"@[3]);
        assert("pw-stop"@[3] != "pw-copy"@[3]);
    }
}

/// Folder actions on a listener without a folder, and link actions on a
/// listener without a port, are refused with their own messages.
pub proof fn law_port_actions_need_their_target(
    pid: u32,
    port: Option<u16>,
    process: Option<ProcessView>,
    use_https: bool,
    editor: Seq<char>,
    action: Seq<char>,
)
    ensures
        (action == "pw-finder"@ || action == "pw-terminal"@ || action == "pw-editor"@) && (match process {
            Some(p) => p.project_root.len() == 0 && p.working_directory.len() == 0,
            None => true,
        }) ==> port_action_spec(action, pid, port, process, use_https, editor) == Err::<
            PortActionView,
            Seq<char>,
        >("No folder available for this process"@),
        (action == "pw-open"@ || action == "pw-copy"@) && port is None ==> port_action_spec(
            action,
            pid,
            port,
            process,
            use_https,
            editor,
        ) == Err::<PortActionView, Seq<char>>("No port available"@),
{
    reveal_strlit("pw-finder");
    reveal_strlit("pw-terminal");
    reveal_strlit("pw-editor");
    reveal_strlit("pw-open");
    reveal_strlit("pw-copy");
    if action == "pw-finder"@ || action == "pw-terminal"@ || action == "pw-editor"@ {
        assert(action.len() != "pw-open"@.len() && action.len() != "pw-copy"@.len());
    }
}

/// Plans an action chosen in the tray on the listener `pid`.
pub fn plan_port_action(
    action: &str,
    pid: u32,
    port: Option<u16>,
    process: &Option<PortProcess>,
    use_https: bool,
    editor: &str,
) -> (r: Result<PortAction, String>)
    ensures
        action_result_view(r) == port_action_spec(
            action@,
            pid,
            port,
            opt_process_view(*process),
            use_https,
            editor@,
        ),
{
    let a = chars_of(action);
    let is_open = crate::text::eq_str(&a, "pw-open");
    let is_copy = crate::text::eq_str(&a, "pw-copy");
    let is_finder = crate::text::eq_str(&a, "pw-finder");
    let is_terminal = crate::text::eq_str(&a, "pw-terminal");
    let is_editor = crate::text::eq_str(&a, "pw-editor");
    if is_open || is_copy {
        match port {
            None => Err(string_of(&chars_of("No port available"))),
            Some(p) => {
                let url = localhost_url(p, use_https);
                if is_open {
                    Ok(PortAction::OpenUrl(url))
                } else {
                    Ok(PortAction::CopyUrl(url))
                }
            },
        }
    } else if is_finder || is_terminal || is_editor {
        match require_directory(process) {
            Err(e) => Err(e),
            Ok(d) => if is_finder {
                Ok(PortAction::RevealFolder(d))
            } else if is_terminal {
                Ok(PortAction::OpenTerminal(d))
            } else {
                Ok(PortAction::OpenEditor { dir: d, editor: editor.to_owned() })
            },
        }
    } else if crate::text::eq_str(&a, "pw-stop") {
        Ok(PortAction::ConfirmStop { pid, message: confirm_stop_message(process) })
    } else {
        Ok(PortAction::Nothing)
    }
}

// ---------------------------------------------------------------------------
// The signature does not depend on the order of the scan
// ---------------------------------------------------------------------------

/// The texts of the user's processes, in their order.
pub open spec fn user_texts(s: Seq<ProcessView>) -> Seq<Seq<char>> {
    user_processes(s).map_values(|p: ProcessView| process_text(p))
}

proof fn lemma_user_texts_push(u: Seq<ProcessView>, y: ProcessView)
    ensures
        user_texts(u.push(y)) == if y.is_system_service {
            user_texts(u)
        } else {
            user_texts(u).push(process_text(y))
        },
{
    assert(u.push(y).drop_last() =~= u);
    if !y.is_system_service {
        assert(user_processes(u).push(y).map_values(|p: ProcessView| process_text(p))
            =~= user_processes(u).map_values(|p: ProcessView| process_text(p)).push(process_text(y)));
    }
}

proof fn lemma_user_texts_insert(u: Seq<ProcessView>, i: int, y: ProcessView)
    requires
        0 <= i <= u.len(),
    ensures
        user_texts(u.insert(i, y)).to_multiset() =~= if y.is_system_service {
            user_texts(u).to_multiset()
        } else {
            user_texts(u).to_multiset().insert(process_text(y))
        },
    decreases u.len(),
{
    broadcast use vstd::seq_lib::group_to_multiset_ensures;
    broadcast use vstd::multiset::group_multiset_axioms;

    if i == u.len() {
        assert(u.insert(i, y) =~= u.push(y));
        lemma_user_texts_push(u, y);
    } else {
        let w = u.drop_last();
        let l = u.last();
        assert(u.insert(i, y) =~= w.insert(i, y).push(l));
        assert(u =~= w.push(l));
        lemma_user_texts_insert(w, i, y);
        lemma_user_texts_push(w.insert(i, y), l);
        lemma_user_texts_push(w, l);
    }
}

proof fn lemma_user_texts_permutation(s: Seq<ProcessView>, t: Seq<ProcessView>)
    requires
        s.to_multiset() =~= t.to_multiset(),
    ensures
        user_texts(s).to_multiset() =~= user_texts(t).to_multiset(),
    decreases s.len(),
{
    broadcast use vstd::seq_lib::group_to_multiset_ensures;
    broadcast use vstd::multiset::group_multiset_axioms;

    assert(s.len() == s.to_multiset().len() && t.len() == t.to_multiset().len());
    if s.len() == 0 {
        assert(s =~= t);
    } else {
        let x = s.last();
        let s1 = s.drop_last();
        assert(s =~= s1.push(x));
        assert(s.to_multiset().count(x) > 0);
        assert(t.contains(x));
        let i = choose|i: int| 0 <= i < t.len() && t[i] == x;
        let t1 = t.remove(i);
        assert(t1.to_multiset() =~= t.to_multiset().remove(x));
        assert(s1.to_multiset() =~= s.to_multiset().remove(x)) by {
            assert(s.to_multiset() =~= s1.to_multiset().insert(x));
        }
        lemma_user_texts_permutation(s1, t1);
        assert(t =~= t1.insert(i, x));
        lemma_user_texts_insert(t1, i, x);
        lemma_user_texts_push(s1, x);
    }
}

proof fn lemma_signature_by_texts(
    s: Seq<ProcessView>,
    t: Seq<ProcessView>,
    allow_system: bool,
    menu_bar_enabled: bool,
)
    requires
        user_texts(s).to_multiset() =~= user_texts(t).to_multiset(),
    ensures
        signature_spec(s, allow_system, menu_bar_enabled) == signature_spec(
            t,
            allow_system,
            menu_bar_enabled,
        ),
{
    law_sort_texts_sorts(user_texts(s));
    law_sort_texts_sorts(user_texts(t));
    lemma_sorted_unique(sort_texts(user_texts(s)), sort_texts(user_texts(t)));
    assert(user_processes(s).map_values(|p: ProcessView| process_text(p)) == user_texts(s));
    assert(user_processes(t).map_values(|p: ProcessView| process_text(p)) == user_texts(t));
}

/// The menu's signature does not depend on the order in which the scan
/// lists the processes: any rearrangement of the same processes gives the
/// same signature.
pub proof fn law_signature_ignores_order(
    s: Seq<ProcessView>,
    t: Seq<ProcessView>,
    allow_system: bool,
    menu_bar_enabled: bool,
)
    requires
        s.to_multiset() =~= t.to_multiset(),
    ensures
        signature_spec(s, allow_system, menu_bar_enabled) == signature_spec(
            t,
            allow_system,
            menu_bar_enabled,
        ),
{
    lemma_user_texts_permutation(s, t);
    lemma_signature_by_texts(s, t, allow_system, menu_bar_enabled);
}

/// The menu's signature does not change when a system service appears in
/// the scan or leaves it, wherever it is listed.
pub proof fn law_signature_ignores_system_services(
    s: Seq<ProcessView>,
    i: int,
    service: ProcessView,
    allow_system: bool,
    menu_bar_enabled: bool,
)
    requires
        0 <= i <= s.len(),
        service.is_system_service,
    ensures
        signature_spec(s.insert(i, service), allow_system, menu_bar_enabled) == signature_spec(
            s,
            allow_system,
            menu_bar_enabled,
        ),
{
    lemma_user_texts_insert(s, i, service);
    lemma_signature_by_texts(s.insert(i, service), s, allow_system, menu_bar_enabled);
}

proof fn lemma_user_processes_idempotent(s: Seq<ProcessView>)
    ensures
        user_processes(user_processes(s)) == user_processes(s),
        forall|k: int| 0 <= k < user_processes(s).len() ==> !(#[trigger] user_processes(s)[k]).is_system_service,
    decreases s.len(),
{
    if s.len() > 0 {
        lemma_user_processes_idempotent(s.drop_last());
        let u = user_processes(s.drop_last());
        if !s.last().is_system_service {
            assert(u.push(s.last()).drop_last() =~= u);
        }
    }
}

/// The menu's signature is that of the user's processes alone: dropping
/// every system service from the scan keeps it.
pub proof fn law_signature_of_user_processes(
    s: Seq<ProcessView>,
    allow_system: bool,
    menu_bar_enabled: bool,
)
    ensures
        signature_spec(user_processes(s), allow_system, menu_bar_enabled) == signature_spec(
            s,
            allow_system,
            menu_bar_enabled,
        ),
{
    lemma_user_processes_idempotent(s);
    lemma_signature_by_texts(user_processes(s), s, allow_system, menu_bar_enabled);
}

/// `perm` lists, for each position of a sequence of length `n`, a distinct
/// position of another sequence of length `n`.
pub open spec fn is_rearrangement(perm: Seq<int>, n: int) -> bool {
    &&& perm.len() == n
    &&& forall|i: int| 0 <= i < n ==> 0 <= #[trigger] perm[i] < n
    &&& forall|i: int, j: int| 0 <= i < j < n ==> #[trigger] perm[i] != #[trigger] perm[j]
}

proof fn lemma_rearranged_texts(a: Seq<Seq<char>>, b: Seq<Seq<char>>, perm: Seq<int>)
    requires
        a.len() == b.len(),
        is_rearrangement(perm, b.len() as int),
        forall|i: int| 0 <= i < b.len() ==> b[i] == a[#[trigger] perm[i]],
    ensures
        a.to_multiset() =~= b.to_multiset(),
    decreases b.len(),
{
    broadcast use vstd::seq_lib::group_to_multiset_ensures;
    broadcast use vstd::multiset::group_multiset_axioms;

    if b.len() > 0 {
        let n = b.len() - 1;
        let k = perm[n];
        let a1 = a.remove(k);
        let b1 = b.drop_last();
        let p1 = Seq::new(n as nat, |i: int| if perm[i] > k { perm[i] - 1 } else { perm[i] });
        assert forall|i: int| 0 <= i < n implies 0 <= #[trigger] p1[i] < n by {
            assert(perm[i] != perm[n]);
        }
        assert forall|i: int, j: int| 0 <= i < j < n implies #[trigger] p1[i] != #[trigger] p1[j] by {
            assert(perm[i] != perm[j]);
            assert(perm[i] != k && perm[j] != k) by {
                assert(perm[i] != perm[n]);
                assert(perm[j] != perm[n]);
            }
        }
        assert forall|i: int| 0 <= i < b1.len() implies b1[i] == a1[#[trigger] p1[i]] by {
            assert(perm[i] != perm[n]);
        }
        lemma_rearranged_texts(a1, b1, p1);
        assert(b =~= b1.push(b[n]));
        assert(a1.to_multiset() =~= a.to_multiset().remove(a[k]));
        assert(a.to_multiset().count(a[k]) > 0) by {
            assert(a.contains(a[k]));
        }
    }
}

/// The menu's signature stays the same when the scan lists the same user
/// processes in another order, each with its sockets in any order, and
/// with system services added or removed anywhere: `perm` gives, for each
/// user process of `t`, the one of `s` it is.
pub proof fn law_signature_ignores_rearrangement(
    s: Seq<ProcessView>,
    t: Seq<ProcessView>,
    perm: Seq<int>,
    allow_system: bool,
    menu_bar_enabled: bool,
)
    requires
        user_processes(s).len() == user_processes(t).len(),
        is_rearrangement(perm, user_processes(t).len() as int),
        forall|i: int|
            0 <= i < user_processes(t).len() ==> same_but_sockets(
                user_processes(s)[#[trigger] perm[i]],
                user_processes(t)[i],
            ) && user_processes(s)[perm[i]].ports.to_multiset() =~= user_processes(t)[i].ports.to_multiset(),
    ensures
        signature_spec(s, allow_system, menu_bar_enabled) == signature_spec(
            t,
            allow_system,
            menu_bar_enabled,
        ),
{
    let us = user_processes(s);
    let ut = user_processes(t);
    let f = |y: BindingView| binding_text(y);
    assert forall|i: int| 0 <= i < ut.len() implies user_texts(t)[i] == user_texts(s)[
        #[trigger] perm[i]
    ] by {
        let p = us[perm[i]];
        let q = ut[i];
        lemma_binding_texts_permutation(p.ports, q.ports);
        law_sort_texts_sorts(p.ports.map_values(f));
        law_sort_texts_sorts(q.ports.map_values(f));
        lemma_sorted_unique(sort_texts(p.ports.map_values(f)), sort_texts(q.ports.map_values(f)));
    }
    lemma_rearranged_texts(user_texts(s), user_texts(t), perm);
    lemma_signature_by_texts(s, t, allow_system, menu_bar_enabled);
}

/// Two views of a process that differ at most in their sockets.
pub open spec fn same_but_sockets(p: ProcessView, q: ProcessView) -> bool {
    &&& p.pid == q.pid
    &&& p.name == q.name
    &&& p.user == q.user
    &&& p.executable_path == q.executable_path
    &&& p.script_path == q.script_path
    &&& p.command_line == q.command_line
    &&& p.working_directory == q.working_directory
    &&& p.project_root == q.project_root
    &&& p.system_kind == q.system_kind
    &&& p.is_system_service == q.is_system_service
    &&& p.uptime_seconds == q.uptime_seconds
}

proof fn lemma_binding_texts_permutation(a: Seq<BindingView>, b: Seq<BindingView>)
    requires
        a.to_multiset() =~= b.to_multiset(),
    ensures
        a.map_values(|x: BindingView| binding_text(x)).to_multiset() =~= b.map_values(
            |x: BindingView| binding_text(x),
        ).to_multiset(),
    decreases a.len(),
{
    broadcast use vstd::seq_lib::group_to_multiset_ensures;
    broadcast use vstd::multiset::group_multiset_axioms;

    assert(a.len() == a.to_multiset().len() && b.len() == b.to_multiset().len());
    if a.len() == 0 {
        assert(a =~= b);
    } else {
        let x = a.last();
        let a1 = a.drop_last();
        assert(a =~= a1.push(x));
        assert(a.to_multiset().count(x) > 0);
        assert(b.contains(x));
        let i = choose|i: int| 0 <= i < b.len() && b[i] == x;
        let b1 = b.remove(i);
        assert(b1.to_multiset() =~= b.to_multiset().remove(x));
        assert(a1.to_multiset() =~= a.to_multiset().remove(x)) by {
            assert(a.to_multiset() =~= a1.to_multiset().insert(x));
        }
        lemma_binding_texts_permutation(a1, b1);
        assert(b =~= b1.insert(i, x));
        let f = |y: BindingView| binding_text(y);
        assert(b.map_values(f) =~= b1.map_values(f).insert(i, binding_text(x)));
        assert(a.map_values(f) =~= a1.map_values(f).push(binding_text(x)));
        vstd::seq_lib::to_multiset_insert(b1.map_values(f), i, binding_text(x));
    }
}

/// The menu's signature does not depend on the order in which a process's
/// sockets are listed.
pub proof fn law_signature_ignores_socket_order(
    s: Seq<ProcessView>,
    i: int,
    q: ProcessView,
    allow_system: bool,
    menu_bar_enabled: bool,
)
    requires
        0 <= i < s.len(),
        same_but_sockets(s[i], q),
        s[i].ports.to_multiset() =~= q.ports.to_multiset(),
    ensures
        signature_spec(s.update(i, q), allow_system, menu_bar_enabled) == signature_spec(
            s,
            allow_system,
            menu_bar_enabled,
        ),
{
    let p = s[i];
    let f = |y: BindingView| binding_text(y);
    lemma_binding_texts_permutation(p.ports, q.ports);
    law_sort_texts_sorts(p.ports.map_values(f));
    law_sort_texts_sorts(q.ports.map_values(f));
    lemma_sorted_unique(sort_texts(p.ports.map_values(f)), sort_texts(q.ports.map_values(f)));
    assert(process_text(p) == process_text(q));
    let r = s.remove(i);
    assert(s =~= r.insert(i, p));
    assert(s.update(i, q) =~= r.insert(i, q));
    lemma_user_texts_insert(r, i, p);
    lemma_user_texts_insert(r, i, q);
    lemma_signature_by_texts(s.update(i, q), s, allow_system, menu_bar_enabled);
}

} // verus!
