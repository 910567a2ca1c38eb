//! The decisions around stopping a process and talking to helper programs:
//! whether a pid still belongs to the process the user chose, the process
//! name a helper reports, and the bytes handed to the Windows clipboard.
use vstd::prelude::*;

use crate::platform::shared::{names_match_spec, process_names_match};
use crate::scanner::opt_view;
use crate::text::{
    chars_of, chars_of_string, concat, concat_str, decimal, decimal_vec, lines, lines_vec, seqs,
    split_all, split_all_vec, string_of, trim, trim_vec,
};

verus! {

/// The name a helper printed (`ps -o comm=`, `/proc/<pid>/comm`): the text
/// trimmed, if anything is left.
pub open spec fn name_from_spec(text: Seq<char>) -> Option<Seq<char>> {
    if trim(text).len() == 0 {
        None
    } else {
        Some(trim(text))
    }
}

/// Reads the process name a helper printed.
pub fn process_name_from(text: &str) -> (r: Option<String>)
    ensures
        opt_view(r) == name_from_spec(text@),
{
    let t = trim_vec(&chars_of(text));
    if t.len() == 0 {
        None
    } else {
        Some(string_of(&t))
    }
}

/// The first line that starts with a quote.
pub open spec fn first_quoted(ls: Seq<Seq<char>>) -> Option<Seq<char>>
    decreases ls.len(),
{
    if ls.len() == 0 {
        None
    } else if ls[0].len() > 0 && ls[0][0] == '"' {
        Some(ls[0])
    } else {
        first_quoted(ls.drop_first())
    }
}

/// The image name `tasklist /FO CSV /NH` prints: the first quoted field of
/// its first quoted line, trimmed, if anything is left.
pub open spec fn tasklist_name_spec(stdout: Seq<char>) -> Option<Seq<char>> {
    match first_quoted(lines(stdout)) {
        None => None,
        Some(line) => {
            let fields = split_all(line, "\""@);
            if fields.len() < 2 {
                None
            } else {
                name_from_spec(fields[1])
            }
        },
    }
}

/// Reads the process name from `tasklist` output.
pub fn tasklist_name(stdout: &str) -> (r: Option<String>)
    ensures
        opt_view(r) == tasklist_name_spec(stdout@),
{
    let ls = lines_vec(&chars_of(stdout));
    let ghost lv = seqs(ls@);
    let mut i: usize = 0;
    assert(lv.skip(0) == lv);
    while i < ls.len()
        invariant
            i <= ls.len(),
            lv == seqs(ls@),
            lv == lines(stdout@),
            first_quoted(lv) == first_quoted(lv.skip(i as int)),
        decreases ls.len() - i,
    {
        assert(lv.skip(i as int)[0] == ls@[i as int]@);
        if ls[i].len() > 0 && ls[i][0] == '"' {
            let quote = chars_of("\"");
            proof {
                reveal_strlit("\"");
            }
            let fields = split_all_vec(&ls[i], &quote);
            if fields.len() < 2 {
                return None;
            }
            let t = trim_vec(&fields[1]);
            if t.len() == 0 {
                return None;
            }
            return Some(string_of(&t));
        }
        assert(lv.skip(i as int).drop_first() == lv.skip(i + 1));
        i += 1;
    }
    None
}

/// Whether the pid may still be signalled: yes when no name was expected,
/// when the process is gone (the goal is met), or when its current name
/// matches the expected one; otherwise the process list was stale.
pub open spec fn identity_spec(pid: u32, expected: Option<Seq<char>>, current: Option<Seq<char>>) -> Result<
    (),
    Seq<char>,
> {
    match expected {
        None => Ok(()),
        Some(e) => match current {
            None => Ok(()),
            Some(name) => if names_match_spec(name, e) {
                Ok(())
            } else {
                Err(
                    "PID "@ + decimal(pid as nat) + " now belongs to \""@ + name + "\", not \""@ + e
                        + "\" — the process list was stale. Refresh and try again."@,
                )
            },
        },
    }
}

/// Checks that `pid` still runs the process the user chose (`current` is
/// its name now, `None` when it is gone).
pub fn verify_process_identity(pid: u32, expected: &Option<String>, current: &Option<String>) -> (r:
    Result<(), String>)
    ensures
        crate::platform::path_validation::unit_result_view(r) == identity_spec(
            pid,
            opt_view(*expected),
            opt_view(*current),
        ),
{
    let e = match expected {
        None => {
            return Ok(());
        },
        Some(e) => e,
    };
    let name = match current {
        None => {
            return Ok(());
        },
        Some(n) => n,
    };
    if process_names_match(name.as_str(), e.as_str()) {
        return Ok(());
    }
    let m = concat_str(&concat(&chars_of("PID "), &decimal_vec(pid as u64)), " now belongs to \"");
    let m = concat_str(&concat(&m, &chars_of_string(name)), "\", not \"");
    let m = concat_str(
        &concat(&m, &chars_of_string(e)),
        "\" — the process list was stale. Refresh and try again.",
    );
    Err(string_of(&m))
}

/// After the grace period: escalate to a forced stop only if the pid still
/// runs the chosen process (any process, when no name was expected).
pub open spec fn still_matches_spec(current: Option<Seq<char>>, expected: Option<Seq<char>>) -> bool {
    match (current, expected) {
        (Some(name), Some(e)) => names_match_spec(name, e),
        (Some(_), None) => true,
        (None, _) => false,
    }
}

/// Whether to escalate to a forced stop (see `still_matches_spec`).
pub fn still_matches(current: &Option<String>, expected: &Option<String>) -> (b: bool)
    ensures
        b == still_matches_spec(opt_view(*current), opt_view(*expected)),
{
    match (current, expected) {
        (Some(name), Some(e)) => process_names_match(name.as_str(), e.as_str()),
        (Some(_), None) => true,
        (None, _) => false,
    }
}

// ---------------------------------------------------------------------------
// Stopping a process, one step at a time
// ---------------------------------------------------------------------------

/// Where a Unix stop stands: before anything was sent, after `TERM`, after
/// the grace period, or done.
#[derive(Clone, Copy, Debug, PartialEq, Eq, Structural)]
pub enum StopStep {
    Start,
    AfterTerm,
    AfterGrace,
    Finished,
}

/// What the caller does next: send `TERM` (on Windows, a graceful
/// `taskkill`), send `KILL` (`taskkill /F`), wait so many milliseconds and
/// read the process name again, or nothing more.
#[derive(Clone, Copy, Debug, PartialEq, Eq, Structural)]
pub enum StopAction {
    SendTerm,
    SendKill,
    Wait(u64),
    Done,
}

/// The grace period between `TERM` and `KILL`, in milliseconds.
pub const STOP_GRACE_MS: u64 = 2000;

/// A step's outcome with its error message as text.
pub open spec fn step_result_view<S>(r: Result<(S, StopAction), String>) -> Result<
    (S, StopAction),
    Seq<char>,
> {
    match r {
        Ok(p) => Ok(p),
        Err(e) => Err(e@),
    }
}

/// One step of stopping `pid` on Unix. `current` is the name the pid runs
/// now (read before the first step and after the wait).
/// - Start: the identity check first; then `KILL` at once when forced, else
///   `TERM`.
/// - After `TERM`: wait the grace period.
/// - After the grace period: `KILL` only if the pid still runs the chosen
///   process (the pid may have been reused), else nothing.
pub open spec fn stop_step_spec(
    pid: u32,
    step: StopStep,
    force: bool,
    expected: Option<Seq<char>>,
    current: Option<Seq<char>>,
) -> Result<(StopStep, StopAction), Seq<char>> {
    match step {
        StopStep::Start => match identity_spec(pid, expected, current) {
            Err(m) => Err(m),
            Ok(_) => if force {
                Ok((StopStep::Finished, StopAction::SendKill))
            } else {
                Ok((StopStep::AfterTerm, StopAction::SendTerm))
            },
        },
        StopStep::AfterTerm => Ok((StopStep::AfterGrace, StopAction::Wait(STOP_GRACE_MS))),
        StopStep::AfterGrace => if still_matches_spec(current, expected) {
            Ok((StopStep::Finished, StopAction::SendKill))
        } else {
            Ok((StopStep::Finished, StopAction::Done))
        },
        StopStep::Finished => Ok((StopStep::Finished, StopAction::Done)),
    }
}

/// Decides the next step of stopping `pid` on Unix (see `stop_step_spec`).
pub fn stop_step(
    pid: u32,
    step: StopStep,
    force: bool,
    expected: &Option<String>,
    current: &Option<String>,
) -> (r: Result<(StopStep, StopAction), String>)
    ensures
        step_result_view(r) == stop_step_spec(pid, step, force, opt_view(*expected), opt_view(*current)),
{
    match step {
        StopStep::Start => {
            match verify_process_identity(pid, expected, current) {
                Err(m) => Err(m),
                Ok(()) => if force {
                    Ok((StopStep::Finished, StopAction::SendKill))
                } else {
                    Ok((StopStep::AfterTerm, StopAction::SendTerm))
                },
            }
        },
        StopStep::AfterTerm => Ok((StopStep::AfterGrace, StopAction::Wait(STOP_GRACE_MS))),
        StopStep::AfterGrace => if still_matches(current, expected) {
            Ok((StopStep::Finished, StopAction::SendKill))
        } else {
            Ok((StopStep::Finished, StopAction::Done))
        },
        StopStep::Finished => Ok((StopStep::Finished, StopAction::Done)),
    }
}

/// How far a Unix stop is from done.
pub open spec fn stop_rank(step: StopStep) -> nat {
    match step {
        StopStep::Start => 3,
        StopStep::AfterTerm => 2,
        StopStep::AfterGrace => 1,
        StopStep::Finished => 0,
    }
}

/// The actions of a whole Unix stop whose identity check passed; `later` is
/// the name read after the wait.
pub open spec fn stop_actions_spec(
    force: bool,
    expected: Option<Seq<char>>,
    later: Option<Seq<char>>,
) -> Seq<StopAction> {
    if force {
        seq![StopAction::SendKill]
    } else if still_matches_spec(later, expected) {
        seq![StopAction::SendTerm, StopAction::Wait(STOP_GRACE_MS), StopAction::SendKill]
    } else {
        seq![StopAction::SendTerm, StopAction::Wait(STOP_GRACE_MS)]
    }
}

/// A Unix stop ends: every step before `Finished` moves closer to it, and
/// `Finished` does nothing more.
pub proof fn law_stop_terminates(
    pid: u32,
    step: StopStep,
    force: bool,
    expected: Option<Seq<char>>,
    current: Option<Seq<char>>,
)
    ensures
        match stop_step_spec(pid, step, force, expected, current) {
            Ok((next, action)) => {
                &&& step != StopStep::Finished ==> stop_rank(next) < stop_rank(step)
                &&& step == StopStep::Finished ==> action == StopAction::Done
            },
            Err(_) => step == StopStep::Start,
        },
{
}

/// The signals of a Unix stop: forced, one `KILL`; otherwise `TERM`, the
/// grace period, and `KILL` only when the pid still runs the chosen process
/// after it. Nothing is sent when the identity check fails.
pub proof fn law_stop_sequence(
    pid: u32,
    force: bool,
    expected: Option<Seq<char>>,
    first: Option<Seq<char>>,
    later: Option<Seq<char>>,
)
    ensures
        identity_spec(pid, expected, first) is Err ==> stop_step_spec(
            pid,
            StopStep::Start,
            force,
            expected,
            first,
        ) is Err,
        identity_spec(pid, expected, first) is Ok ==> ({
            let acts = stop_actions_spec(force, expected, later);
            let s0 = stop_step_spec(pid, StopStep::Start, force, expected, first);
            &&& s0 == Ok::<(StopStep, StopAction), Seq<char>>((
                if force { StopStep::Finished } else { StopStep::AfterTerm },
                acts[0],
            ))
            &&& !force ==> stop_step_spec(pid, StopStep::AfterTerm, force, expected, later) == Ok::<
                (StopStep, StopAction),
                Seq<char>,
            >((StopStep::AfterGrace, acts[1]))
            &&& !force ==> stop_step_spec(pid, StopStep::AfterGrace, force, expected, later) == Ok::<
                (StopStep, StopAction),
                Seq<char>,
            >((StopStep::Finished, if acts.len() == 3 { acts[2] } else { StopAction::Done }))
        }),
        stop_actions_spec(force, expected, later).contains(StopAction::SendKill) ==> (
        force || still_matches_spec(later, expected)),
{
    let acts = stop_actions_spec(force, expected, later);
    if !force && !still_matches_spec(later, expected) {
        assert(acts[0] != StopAction::SendKill && acts[1] != StopAction::SendKill);
    }
}

/// Where a Windows stop stands: before `taskkill`, after the graceful run,
/// after the forced run, or done.
#[derive(Clone, Copy, Debug, PartialEq, Eq, Structural)]
pub enum TaskkillStep {
    Start,
    AfterGraceful,
    AfterForced,
    Finished,
}

/// One step of stopping `pid` on Windows. `succeeded` says whether the last
/// `taskkill` exited successfully; `current` is the name the pid runs now,
/// read before the first step and again when a graceful run failed.
/// - Start: the identity check; then `taskkill /F` when forced, else a
///   graceful `taskkill`.
/// - After a graceful run: done if it succeeded; otherwise (console
///   processes refuse it) the identity check again, then `taskkill /F`.
/// - After a forced run: done if it succeeded, else an error.
pub open spec fn taskkill_step_spec(
    pid: u32,
    step: TaskkillStep,
    force: bool,
    expected: Option<Seq<char>>,
    current: Option<Seq<char>>,
    succeeded: bool,
) -> Result<(TaskkillStep, StopAction), Seq<char>> {
    match step {
        TaskkillStep::Start => match identity_spec(pid, expected, current) {
            Err(m) => Err(m),
            Ok(_) => if force {
                Ok((TaskkillStep::AfterForced, StopAction::SendKill))
            } else {
                Ok((TaskkillStep::AfterGraceful, StopAction::SendTerm))
            },
        },
        TaskkillStep::AfterGraceful => if succeeded {
            Ok((TaskkillStep::Finished, StopAction::Done))
        } else {
            match identity_spec(pid, expected, current) {
                Err(m) => Err(m),
                Ok(_) => Ok((TaskkillStep::AfterForced, StopAction::SendKill)),
            }
        },
        TaskkillStep::AfterForced => if succeeded {
            Ok((TaskkillStep::Finished, StopAction::Done))
        } else {
            Err(taskkill_failed_spec(pid))
        },
        TaskkillStep::Finished => Ok((TaskkillStep::Finished, StopAction::Done)),
    }
}

/// The error of a forced `taskkill` that did not succeed.
pub open spec fn taskkill_failed_spec(pid: u32) -> Seq<char> {
    "taskkill failed for PID "@ + decimal(pid as nat)
}

/// Decides the next step of stopping `pid` on Windows (see
/// `taskkill_step_spec`).
pub fn taskkill_step(
    pid: u32,
    step: TaskkillStep,
    force: bool,
    expected: &Option<String>,
    current: &Option<String>,
    succeeded: bool,
) -> (r: Result<(TaskkillStep, StopAction), String>)
    ensures
        step_result_view(r) == taskkill_step_spec(
            pid,
            step,
            force,
            opt_view(*expected),
            opt_view(*current),
            succeeded,
        ),
{
    match step {
        TaskkillStep::Start => {
            match verify_process_identity(pid, expected, current) {
                Err(m) => Err(m),
                Ok(()) => if force {
                    Ok((TaskkillStep::AfterForced, StopAction::SendKill))
                } else {
                    Ok((TaskkillStep::AfterGraceful, StopAction::SendTerm))
                },
            }
        },
        TaskkillStep::AfterGraceful => if succeeded {
            Ok((TaskkillStep::Finished, StopAction::Done))
        } else {
            match verify_process_identity(pid, expected, current) {
                Err(m) => Err(m),
                Ok(()) => Ok((TaskkillStep::AfterForced, StopAction::SendKill)),
            }
        },
        TaskkillStep::AfterForced => if succeeded {
            Ok((TaskkillStep::Finished, StopAction::Done))
        } else {
            let m = concat(&chars_of("taskkill failed for PID "), &decimal_vec(pid as u64));
            proof {
                reveal_strlit("taskkill failed for PID ");
            }
            Err(string_of(&m))
        },
        TaskkillStep::Finished => Ok((TaskkillStep::Finished, StopAction::Done)),
    }
}

/// A forced `taskkill` on Windows only follows a passed identity check: at
/// the start, or, after a failed graceful run, a second one on the name
/// read then.
pub proof fn law_taskkill_force_needs_identity(
    pid: u32,
    step: TaskkillStep,
    force: bool,
    expected: Option<Seq<char>>,
    current: Option<Seq<char>>,
    succeeded: bool,
)
    ensures
        taskkill_step_spec(pid, step, force, expected, current, succeeded) matches Ok(
            (_, StopAction::SendKill),
        ) ==> identity_spec(pid, expected, current) is Ok && (step == TaskkillStep::Start
            ==> force) && (step == TaskkillStep::AfterGraceful ==> !succeeded),
{
}

// ---------------------------------------------------------------------------
// UTF-16LE for the Windows clipboard
// ---------------------------------------------------------------------------

/// The UTF-16 code units of one character: itself below `0x10000`, else a
/// surrogate pair.
pub open spec fn utf16_units(c: char) -> Seq<int> {
    let v = c as u32 as int;
    if v < 0x10000 {
        seq![v]
    } else {
        seq![0xD800 + (v - 0x10000) / 1024, 0xDC00 + (v - 0x10000) % 1024]
    }
}

/// The little-endian bytes of UTF-16 code units.
pub open spec fn le_bytes(units: Seq<int>) -> Seq<u8>
    decreases units.len(),
{
    if units.len() == 0 {
        seq![]
    } else {
        le_bytes(units.drop_last()) + seq![
            (units.last() % 256) as u8,
            ((units.last() / 256) % 256) as u8,
        ]
    }
}

/// The UTF-16LE encoding of a text.
pub open spec fn utf16le(s: Seq<char>) -> Seq<u8>
    decreases s.len(),
{
    if s.len() == 0 {
        seq![]
    } else {
        utf16le(s.drop_last()) + le_bytes(utf16_units(s.last()))
    }
}

/// What `clip.exe` is given: a UTF-16LE byte-order mark, then the text in
/// UTF-16LE (without the mark it would read the OEM code page).
pub open spec fn clipboard_bytes_spec(text: Seq<char>) -> Seq<u8> {
    seq![0xFFu8, 0xFEu8] + utf16le(text)
}

fn push_unit(out: &mut Vec<u8>, u: u32)
    ensures
        final(out)@ == old(out)@ + seq![(u % 256) as u8, ((u / 256) % 256) as u8],
{
    out.push((u % 256) as u8);
    out.push(((u / 256) % 256) as u8);
}

/// The bytes handed to the Windows clipboard for `text`.
pub fn clipboard_bytes(text: &str) -> (r: Vec<u8>)
    ensures
        r@ == clipboard_bytes_spec(text@),
{
    let v = chars_of(text);
    let mut out: Vec<u8> = Vec::new();
    out.push(0xFF);
    out.push(0xFE);
    let mut i: usize = 0;
    assert(v@.take(0) =~= Seq::<char>::empty());
    assert(out@ =~= seq![0xFFu8, 0xFEu8] + utf16le(v@.take(0)));
    while i < v.len()
        invariant
            i <= v.len(),
            out@ == seq![0xFFu8, 0xFEu8] + utf16le(v@.take(i as int)),
        decreases v.len() - i,
    {
        assert(v@.take(i + 1).drop_last() == v@.take(i as int));
        assert(v@.take(i + 1).last() == v@[i as int]);
        let ch: char = v[i];
        let c: u32 = ch as u32;
        assert(le_bytes(Seq::<int>::empty()) == Seq::<u8>::empty());
        if c < 0x10000 {
            push_unit(&mut out, c);
            let ghost one = seq![c as int];
            assert(one.drop_last() =~= Seq::<int>::empty());
            assert(one.last() == c as int);
            assert(le_bytes(one) =~= seq![(c % 256) as u8, ((c / 256) % 256) as u8]);
            assert(utf16_units(ch) == one);
        } else {
            let d = c - 0x10000;
            let hi = 0xD800 + d / 1024;
            let lo = 0xDC00 + d % 1024;
            push_unit(&mut out, hi);
            push_unit(&mut out, lo);
            let ghost us = seq![hi as int, lo as int];
            let ghost first = seq![hi as int];
            assert(us.drop_last() =~= first);
            assert(first.drop_last() =~= Seq::<int>::empty());
            assert(le_bytes(first) =~= seq![(hi % 256) as u8, ((hi / 256) % 256) as u8]);
            assert(le_bytes(us) =~= seq![
                (hi % 256) as u8,
                ((hi / 256) % 256) as u8,
                (lo % 256) as u8,
                ((lo / 256) % 256) as u8,
            ]);
            assert(utf16_units(ch) == us);
        }
        assert(out@ =~= seq![0xFFu8, 0xFEu8] + utf16le(v@.take(i + 1)));
        i += 1;
    }
    assert(v@.take(v.len() as int) == v@);
    out
}

} // verus!
