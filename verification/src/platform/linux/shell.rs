//! Opening a terminal on Linux: the order in which terminal programs are
//! tried, and what a failed try leads to.
use vstd::prelude::*;

use crate::cli::strings_view;
use crate::text::{chars_of, concat, string_of};

verus! {

/// A terminal program to start: its name, its arguments, whether it is
/// started in the chosen directory, and whether the caller waits
/// `TERMINAL_PROBE_MS` to see it did not exit with an error at once.
pub struct TerminalCommand {
    pub program: String,
    pub args: Vec<String>,
    pub in_dir: bool,
    pub probe: bool,
}

/// A terminal command as plain values.
pub struct TerminalCommandView {
    pub program: Seq<char>,
    pub args: Seq<Seq<char>>,
    pub in_dir: bool,
    pub probe: bool,
}

impl View for TerminalCommand {
    type V = TerminalCommandView;

    open spec fn view(&self) -> TerminalCommandView {
        TerminalCommandView {
            program: self.program@,
            args: strings_view(self.args@),
            in_dir: self.in_dir,
            probe: self.probe,
        }
    }
}

/// How long the caller watches a probed terminal, in milliseconds.
pub const TERMINAL_PROBE_MS: u64 = 500;

/// How the last try went: started (and, when probed, not failed at once),
/// could not be started, or exited with an error within the probe.
#[derive(Clone, Copy, Debug, PartialEq, Eq, Structural)]
pub enum TerminalOutcome {
    Started,
    SpawnFailed,
    ExitedWithError,
}

/// What to do next: start try `attempt`, stop because a terminal opened, or
/// give up with an error.
pub enum TerminalPlan {
    Launch { attempt: u32, command: TerminalCommand },
    Opened,
    Failed(String),
}

/// A plan as plain values.
pub enum TerminalPlanView {
    Launch { attempt: u32, command: TerminalCommandView },
    Opened,
    Failed(Seq<char>),
}

impl View for TerminalPlan {
    type V = TerminalPlanView;

    open spec fn view(&self) -> TerminalPlanView {
        match self {
            TerminalPlan::Launch { attempt, command } => TerminalPlanView::Launch {
                attempt: *attempt,
                command: command@,
            },
            TerminalPlan::Opened => TerminalPlanView::Opened,
            TerminalPlan::Failed(m) => TerminalPlanView::Failed(m@),
        }
    }
}

/// The number of tries there are.
pub open spec fn terminal_tries() -> u32 {
    6
}

/// Try `i`: `$TERMINAL --working-directory <cwd>` (probed), then `$TERMINAL`
/// started in the directory (both only when `$TERMINAL` is set and not
/// empty), then `xdg-terminal-exec --dir`, `gnome-terminal
/// --working-directory`, `konsole --workdir`, and `xterm -e bash --noprofile
/// --norc` started in the directory.
pub open spec fn terminal_candidate(i: u32, terminal: Option<Seq<char>>, cwd: Seq<char>) -> Option<
    TerminalCommandView,
> {
    let cmd = |p: Seq<char>, a: Seq<Seq<char>>, d: bool, probe: bool|
        TerminalCommandView { program: p, args: a, in_dir: d, probe: probe };
    if i == 0 || i == 1 {
        match terminal {
            Some(t) => if t.len() == 0 {
                None
            } else if i == 0 {
                Some(cmd(t, seq!["--working-directory"@, cwd], false, true))
            } else {
                Some(cmd(t, seq![], true, false))
            },
            None => None,
        }
    } else if i == 2 {
        Some(cmd("xdg-terminal-exec"@, seq!["--dir"@, cwd], false, false))
    } else if i == 3 {
        Some(cmd("gnome-terminal"@, seq!["--working-directory"@, cwd], false, false))
    } else if i == 4 {
        Some(cmd("konsole"@, seq!["--workdir"@, cwd], false, false))
    } else if i == 5 {
        Some(cmd("xterm"@, seq!["-e"@, "bash"@, "--noprofile"@, "--norc"@], true, false))
    } else {
        None
    }
}

/// The first try from `i` on that exists, or `None` past the last one.
pub open spec fn first_try_from(i: u32, terminal: Option<Seq<char>>, cwd: Seq<char>) -> Option<u32>
    decreases terminal_tries() - i,
{
    if i >= terminal_tries() {
        None
    } else if terminal_candidate(i, terminal, cwd) is Some {
        Some(i)
    } else {
        first_try_from((i + 1) as u32, terminal, cwd)
    }
}

/// Which try comes after try `from` went as `last` (`None`: nothing was
/// tried yet), or `None` when a terminal opened. A probed `$TERMINAL` that
/// exited with an error is tried again without the flag; one that could
/// not be started is not.
pub open spec fn next_try(from: u32, last: Option<TerminalOutcome>) -> Option<u32> {
    match last {
        None => Some(0),
        Some(TerminalOutcome::Started) => None,
        Some(TerminalOutcome::ExitedWithError) => if from == 0 {
            Some(1)
        } else {
            Some(try_after(from))
        },
        Some(TerminalOutcome::SpawnFailed) => if from == 0 {
            Some(2)
        } else {
            Some(try_after(from))
        },
    }
}

/// The try after `from`, kept within the tries.
pub open spec fn try_after(from: u32) -> u32 {
    if from < terminal_tries() {
        (from + 1) as u32
    } else {
        terminal_tries()
    }
}

/// The error when no terminal could be opened.
pub open spec fn no_terminal_spec(cwd: Seq<char>) -> Seq<char> {
    "Could not open a terminal at: "@ + cwd
}

/// The next step of opening a terminal at `cwd`.
pub open spec fn terminal_step_spec(
    from: u32,
    last: Option<TerminalOutcome>,
    terminal: Option<Seq<char>>,
    cwd: Seq<char>,
) -> TerminalPlanView {
    match next_try(from, last) {
        None => TerminalPlanView::Opened,
        Some(k) => match first_try_from(k, terminal, cwd) {
            None => TerminalPlanView::Failed(no_terminal_spec(cwd)),
            Some(i) => TerminalPlanView::Launch {
                attempt: i,
                command: terminal_candidate(i, terminal, cwd).unwrap(),
            },
        },
    }
}

fn owned_seq(items: &[&str]) -> (r: Vec<String>)
    ensures
        strings_view(r@) == items@.map_values(|s: &str| s@),
{
    let mut r: Vec<String> = Vec::new();
    let mut i: usize = 0;
    while i < items.len()
        invariant
            i <= items.len(),
            strings_view(r@) == items@.take(i as int).map_values(|s: &str| s@),
        decreases items.len() - i,
    {
        let ghost before = r@;
        let o = items[i].to_owned();
        r.push(o);
        assert(items@.take(i + 1) == items@.take(i as int).push(items@[i as int]));
        assert(r@ == before.push(o));
        assert(strings_view(r@) =~= strings_view(before).push(items@[i as int]@));
        assert(items@.take(i + 1).map_values(|s: &str| s@) =~= items@.take(i as int).map_values(
            |s: &str| s@,
        ).push(items@[i as int]@));
        i += 1;
    }
    assert(items@.take(items.len() as int) == items@);
    r
}

/// Builds try `i` (see `terminal_candidate`).
fn candidate(i: u32, terminal: &Option<String>, cwd: &str) -> (r: Option<TerminalCommand>)
    ensures
        match r {
            None => terminal_candidate(i, crate::scanner::opt_view(*terminal), cwd@) is None,
            Some(c) => terminal_candidate(i, crate::scanner::opt_view(*terminal), cwd@) == Some(
                c@,
            ),
        },
{
    proof {
        reveal_strlit("--working-directory");
        reveal_strlit("xdg-terminal-exec");
        reveal_strlit("--dir");
        reveal_strlit("gnome-terminal");
        reveal_strlit("konsole");
        reveal_strlit("--workdir");
        reveal_strlit("xterm");
        reveal_strlit("-e");
        reveal_strlit("bash");
        reveal_strlit("--noprofile");
        reveal_strlit("--norc");
    }
    let (program, args, in_dir, probe): (String, Vec<String>, bool, bool) = if i == 0 || i == 1 {
        match terminal {
            None => {
                return None;
            },
            Some(t) => {
                if t.as_str().unicode_len() == 0 {
                    return None;
                }
                if i == 0 {
                    (t.clone(), owned_seq(&["--working-directory", cwd]), false, true)
                } else {
                    (t.clone(), Vec::new(), true, false)
                }
            },
        }
    } else if i == 2 {
        ("xdg-terminal-exec".to_owned(), owned_seq(&["--dir", cwd]), false, false)
    } else if i == 3 {
        ("gnome-terminal".to_owned(), owned_seq(&["--working-directory", cwd]), false, false)
    } else if i == 4 {
        ("konsole".to_owned(), owned_seq(&["--workdir", cwd]), false, false)
    } else if i == 5 {
        ("xterm".to_owned(), owned_seq(&["-e", "bash", "--noprofile", "--norc"]), true, false)
    } else {
        return None;
    };
    let c = TerminalCommand { program, args, in_dir, probe };
    assert(c@.args =~= terminal_candidate(i, crate::scanner::opt_view(*terminal), cwd@)->0.args);
    Some(c)
}

/// Decides the next step of opening a terminal at `cwd`, after try `from`
/// went as `last` (`None` before the first try). `terminal` is `$TERMINAL`.
pub fn terminal_step(from: u32, last: Option<TerminalOutcome>, terminal: &Option<String>, cwd: &str) -> (r:
    TerminalPlan)
    ensures
        r@ == terminal_step_spec(from, last, crate::scanner::opt_view(*terminal), cwd@),
{
    let mut k: u32 = match last {
        None => 0,
        Some(TerminalOutcome::Started) => {
            return TerminalPlan::Opened;
        },
        Some(TerminalOutcome::ExitedWithError) => if from == 0 {
            1
        } else if from < 6 {
            from + 1
        } else {
            6
        },
        Some(TerminalOutcome::SpawnFailed) => if from == 0 {
            2
        } else if from < 6 {
            from + 1
        } else {
            6
        },
    };
    let ghost t = crate::scanner::opt_view(*terminal);
    let ghost start = k;
    while k < 6
        invariant
            k <= 6,
            first_try_from(start, t, cwd@) == first_try_from(k, t, cwd@),
            t == crate::scanner::opt_view(*terminal),
            next_try(from, last) == Some(start),
        decreases 6 - k,
    {
        let c = candidate(k, terminal, cwd);
        assert(first_try_from(k, t, cwd@) == if terminal_candidate(k, t, cwd@) is Some {
            Some(k)
        } else {
            first_try_from((k + 1) as u32, t, cwd@)
        });
        if let Some(c) = c {
            return TerminalPlan::Launch { attempt: k, command: c };
        }
        k += 1;
    }
    let m = concat(&chars_of("Could not open a terminal at: "), &chars_of(cwd));
    proof {
        reveal_strlit("Could not open a terminal at: ");
    }
    TerminalPlan::Failed(string_of(&m))
}

/// Once a terminal started, nothing more is tried; and a try is only made
/// after every earlier try failed or does not exist.
pub proof fn law_terminal_tries_in_order(
    from: u32,
    last: Option<TerminalOutcome>,
    terminal: Option<Seq<char>>,
    cwd: Seq<char>,
)
    requires
        from < terminal_tries(),
    ensures
        last == Some(TerminalOutcome::Started) ==> terminal_step_spec(from, last, terminal, cwd)
            is Opened,
        last is Some && last != Some(TerminalOutcome::Started) ==> match terminal_step_spec(
            from,
            last,
            terminal,
            cwd,
        ) {
            TerminalPlanView::Launch { attempt, .. } => attempt > from,
            TerminalPlanView::Failed(_) => true,
            TerminalPlanView::Opened => false,
        },
{
    if let Some(k) = next_try(from, last) {
        lemma_first_try_from(k, terminal, cwd);
    }
}

proof fn lemma_first_try_from(i: u32, terminal: Option<Seq<char>>, cwd: Seq<char>)
    ensures
        first_try_from(i, terminal, cwd) matches Some(j) ==> i <= j < terminal_tries()
            && terminal_candidate(j, terminal, cwd) is Some,
    decreases terminal_tries() - i,
{
    if i < terminal_tries() && terminal_candidate(i, terminal, cwd) is None {
        lemma_first_try_from((i + 1) as u32, terminal, cwd);
    }
}

} // verus!
