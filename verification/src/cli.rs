//! The command line: `port-watch check <port> [--udp]` and
//! `port-watch install-cli`. Which processes own a port, and the exit codes.
use vstd::prelude::*;

use crate::scanner::{bindings_view, clone_process, processes_view, PortProcess, ProcessView};
use crate::text::{chars_of, chars_of_string, concat, eq_str, parse_u16, parse_uint, string_of};

verus! {

/// What the program was started for.
#[derive(Debug, Clone, Copy, PartialEq, Eq, Structural)]
pub enum CliCommand {
    /// `install-cli`.
    InstallCli,
    /// `check ...`: the arguments after `check`.
    Check,
    /// Anything else starts the application.
    App,
}

/// What the arguments (the program's name first) start.
pub open spec fn cli_command_spec(args: Seq<Seq<char>>) -> CliCommand {
    if args.len() >= 2 && args[1] == "install-cli"@ {
        CliCommand::InstallCli
    } else if args.len() >= 2 && args[1] == "check"@ {
        CliCommand::Check
    } else {
        CliCommand::App
    }
}

/// The texts of a list of strings.
pub open spec fn strings_view(v: Seq<String>) -> Seq<Seq<char>> {
    v.map_values(|s: String| s@)
}

/// Reads the program's arguments (the program's own name first).
pub fn cli_command(args: &Vec<String>) -> (r: CliCommand)
    ensures
        r == cli_command_spec(strings_view(args@)),
{
    if args.len() >= 2 {
        let a = chars_of_string(&args[1]);
        if eq_str(&a, "install-cli") {
            return CliCommand::InstallCli;
        }
        if eq_str(&a, "check") {
            return CliCommand::Check;
        }
    }
    CliCommand::App
}

pub const USAGE: &'static str = "Usage: port-watch check <port> [--udp]";

/// The arguments of `check`: the port and whether UDP is included, or the
/// message to print before exiting with status 2.
pub open spec fn check_args_spec(args: Seq<Seq<char>>) -> Result<(u16, bool), Seq<char>> {
    if args.len() == 0 {
        Err(USAGE@)
    } else {
        match parse_uint(args[0], 65535) {
            None => Err("Invalid port: "@ + args[0]),
            Some(p) => Ok((p as u16, args.len() > 1 && args[1] == "--udp"@)),
        }
    }
}

/// The plain values of a parse of `check`'s arguments.
pub open spec fn args_result_view(r: Result<(u16, bool), String>) -> Result<(u16, bool), Seq<char>> {
    match r {
        Ok(x) => Ok(x),
        Err(e) => Err(e@),
    }
}

/// Reads the arguments of `check`.
pub fn parse_check_args(args: &Vec<String>) -> (r: Result<(u16, bool), String>)
    ensures
        args_result_view(r) == check_args_spec(strings_view(args@)),
{
    if args.len() == 0 {
        return Err(USAGE.to_owned());
    }
    let first = chars_of_string(&args[0]);
    match parse_u16(&first) {
        None => Err(string_of(&concat(&chars_of("Invalid port: "), &first))),
        Some(p) => {
            let udp = args.len() > 1 && eq_str(&chars_of_string(&args[1]), "--udp");
            Ok((p, udp))
        },
    }
}

/// The process holds a socket on `port`.
pub open spec fn owns_port(p: ProcessView, port: u16) -> bool {
    exists|i: int| 0 <= i < p.ports.len() && (#[trigger] p.ports[i]).port == port
}

/// The processes that hold a socket on `port`, in order.
pub open spec fn owners_spec(s: Seq<ProcessView>, port: u16) -> Seq<ProcessView>
    decreases s.len(),
{
    if s.len() == 0 {
        seq![]
    } else if owns_port(s.last(), port) {
        owners_spec(s.drop_last(), port).push(s.last())
    } else {
        owners_spec(s.drop_last(), port)
    }
}

fn owns_port_exec(p: &PortProcess, port: u16) -> (b: bool)
    ensures
        b == owns_port(p@, port),
{
    let mut i: usize = 0;
    while i < p.ports.len()
        invariant
            i <= p.ports.len(),
            forall|j: int| 0 <= j < i ==> (#[trigger] bindings_view(p.ports@)[j]).port != port,
        decreases p.ports.len() - i,
    {
        if p.ports[i].port == port {
            assert(p@.ports[i as int].port == port);
            return true;
        }
        i += 1;
    }
    false
}

/// The processes that hold a socket on `port`.
pub fn port_owners(processes: &Vec<PortProcess>, port: u16) -> (r: Vec<PortProcess>)
    ensures
        processes_view(r@) == owners_spec(processes_view(processes@), port),
{
    let ghost pv = processes_view(processes@);
    let mut r: Vec<PortProcess> = Vec::new();
    let mut i: usize = 0;
    assert(pv.take(0) =~= Seq::<ProcessView>::empty());
    while i < processes.len()
        invariant
            i <= processes.len(),
            pv == processes_view(processes@),
            processes_view(r@) == owners_spec(pv.take(i as int), port),
        decreases processes.len() - i,
    {
        assert(pv.take(i + 1).drop_last() == pv.take(i as int));
        assert(pv.take(i + 1).last() == processes@[i as int]@);
        if owns_port_exec(&processes[i], port) {
            let ghost before = r@;
            r.push(clone_process(&processes[i]));
            assert(processes_view(r@) =~= processes_view(before).push(processes@[i as int]@));
        }
        i += 1;
    }
    assert(pv.take(processes.len() as int) == pv);
    r
}

/// `check` exits with 0 when the port is free and 1 when something holds
/// it (and then prints the owners).
pub fn check_exit_code(owners: &Vec<PortProcess>) -> (code: i32)
    ensures
        code == if owners@.len() == 0 {
            0i32
        } else {
            1i32
        },
{
    if owners.len() == 0 {
        0
    } else {
        1
    }
}

/// Every process `check` reports holds the port, and every process holding
/// it is reported.
pub proof fn law_owners_are_exactly_the_holders(s: Seq<ProcessView>, port: u16)
    ensures
        forall|i: int|
            0 <= i < owners_spec(s, port).len() ==> owns_port(#[trigger] owners_spec(s, port)[i], port),
        forall|j: int| 0 <= j < s.len() && owns_port(#[trigger] s[j], port) ==> owners_spec(
            s,
            port,
        ).contains(s[j]),
    decreases s.len(),
{
    if s.len() > 0 {
        law_owners_are_exactly_the_holders(s.drop_last(), port);
        let t = s.drop_last();
        assert forall|j: int| 0 <= j < s.len() && owns_port(#[trigger] s[j], port) implies owners_spec(
            s,
            port,
        ).contains(s[j]) by {
            if j < s.len() - 1 {
                assert(s[j] == t[j]);
                let k = choose|k: int| 0 <= k < owners_spec(t, port).len() && owners_spec(t, port)[k] == t[j];
                if owns_port(s.last(), port) {
                    assert(owners_spec(s, port)[k] == t[j]);
                }
            } else {
                assert(owners_spec(s, port).last() == s[j]);
            }
        }
    }
}

} // verus!
