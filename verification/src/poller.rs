//! The background poller's state and decisions: one scan at a time, the
//! last good result kept across failed scans, settings changes restarting
//! the polling loop, and the waits between scans. The timers, threads and
//! events that drive it live with the application.
use vstd::prelude::*;

use crate::scanner::{clone_process, clone_processes, processes_view, PortProcess, ProcessView};

verus! {

/// What the UI is told after a scan, or when it asks for the ports.
#[derive(Debug, Clone)]
pub struct PortsUpdatedPayload {
    pub processes: Vec<PortProcess>,
    pub error: Option<String>,
    pub scanning: bool,
}

pub struct PayloadView {
    pub processes: Seq<ProcessView>,
    pub error: Option<Seq<char>>,
    pub scanning: bool,
}

impl View for PortsUpdatedPayload {
    type V = PayloadView;

    open spec fn view(&self) -> PayloadView {
        PayloadView {
            processes: processes_view(self.processes@),
            error: crate::scanner::opt_view(self.error),
            scanning: self.scanning,
        }
    }
}

/// The poller's state. Times are milliseconds on the application's
/// monotonic clock.
#[derive(Debug)]
pub struct PollerInner {
    pub last_result: Vec<PortProcess>,
    pub last_error: Option<String>,
    pub last_scan_at: Option<u64>,
    pub in_flight: bool,
    pub include_udp: bool,
    pub interval_ms: u64,
    pub refresh_paused: bool,
    pub generation: u64,
}

#[verifier::ext_equal]
pub struct PollerView {
    pub last_result: Seq<ProcessView>,
    pub last_error: Option<Seq<char>>,
    pub last_scan_at: Option<u64>,
    pub in_flight: bool,
    pub include_udp: bool,
    pub interval_ms: u64,
    pub refresh_paused: bool,
    pub generation: u64,
}

impl View for PollerInner {
    type V = PollerView;

    open spec fn view(&self) -> PollerView {
        PollerView {
            last_result: processes_view(self.last_result@),
            last_error: crate::scanner::opt_view(self.last_error),
            last_scan_at: self.last_scan_at,
            in_flight: self.in_flight,
            include_udp: self.include_udp,
            interval_ms: self.interval_ms,
            refresh_paused: self.refresh_paused,
            generation: self.generation,
        }
    }
}

/// The state before anything happened: no scan yet, TCP only, a scan every
/// 3 seconds, not paused.
pub open spec fn initial_state() -> PollerView {
    PollerView {
        last_result: seq![],
        last_error: None,
        last_scan_at: None,
        in_flight: false,
        include_udp: false,
        interval_ms: 3000,
        refresh_paused: false,
        generation: 0,
    }
}

impl Default for PollerInner {
    fn default() -> (r: Self)
        ensures
            r@ == initial_state(),
    {
        let r = PollerInner {
            last_result: Vec::new(),
            last_error: None,
            last_scan_at: None,
            in_flight: false,
            include_udp: false,
            interval_ms: 3000,
            refresh_paused: false,
            generation: 0,
        };
        assert(r@ =~= initial_state());
        r
    }
}

/// What a reader of the cache sees.
pub struct CacheSnapshot {
    pub payload: PortsUpdatedPayload,
    pub scan_complete: bool,
    pub in_flight: bool,
}

/// The next thing the polling loop does.
#[derive(Debug, Clone, Copy, PartialEq, Eq, Structural)]
pub enum PollStep {
    /// Its generation is over: a newer loop took its place.
    Stop,
    /// Polling is off or paused: look again in 500 ms.
    Idle,
    /// Scan now.
    Scan,
}

/// What a request for the ports does next.
pub struct WaitStep {
    /// Start a scan (at most once per request, when none is running).
    pub trigger_scan: bool,
    /// Answer now with this, or keep waiting (50 ms) when `None`.
    pub reply: Option<PortsUpdatedPayload>,
}

/// The first process listed with `pid`.
pub open spec fn find_index(ps: Seq<ProcessView>, pid: u32) -> Option<int>
    decreases ps.len(),
{
    if ps.len() == 0 {
        None
    } else {
        match find_index(ps.drop_last(), pid) {
            Some(i) => Some(i),
            None => if ps.last().pid == pid {
                Some(ps.len() - 1)
            } else {
                None
            },
        }
    }
}

proof fn lemma_find_index(ps: Seq<ProcessView>, pid: u32)
    ensures
        find_index(ps, pid) matches Some(i) ==> 0 <= i < ps.len() && ps[i].pid == pid,
    decreases ps.len(),
{
    if ps.len() > 0 {
        lemma_find_index(ps.drop_last(), pid);
    }
}

proof fn lemma_find_index_prefix(ps: Seq<ProcessView>, n: int, pid: u32)
    requires
        0 <= n <= ps.len(),
        find_index(ps.take(n), pid) is Some,
    ensures
        find_index(ps, pid) == find_index(ps.take(n), pid),
    decreases ps.len() - n,
{
    if n < ps.len() {
        assert(ps.take(n + 1).drop_last() == ps.take(n));
        lemma_find_index_prefix(ps, n + 1, pid);
    } else {
        assert(ps.take(n) == ps);
    }
}

fn find_position(ps: &Vec<PortProcess>, pid: u32) -> (r: Option<usize>)
    ensures
        crate::text::opt_int(r) == find_index(processes_view(ps@), pid),
{
    let ghost pv = processes_view(ps@);
    let mut i: usize = 0;
    assert(pv.take(0) =~= Seq::<ProcessView>::empty());
    while i < ps.len()
        invariant
            i <= ps.len(),
            pv == processes_view(ps@),
            find_index(pv.take(i as int), pid) is None,
        decreases ps.len() - i,
    {
        assert(pv.take(i + 1).drop_last() == pv.take(i as int));
        if ps[i].pid == pid {
            proof {
                lemma_find_index_prefix(pv, i as int + 1, pid);
            }
            return Some(i);
        }
        i += 1;
    }
    assert(pv.take(ps.len() as int) == pv);
    None
}

/// The state after asking to start a scan: refused while one is running,
/// otherwise marked as running.
pub open spec fn begin_spec(st: PollerView) -> (Option<bool>, PollerView) {
    if st.in_flight {
        (None, st)
    } else {
        (Some(st.include_udp), PollerView { in_flight: true, ..st })
    }
}

/// The state after a scan ended at `now` with `outcome`: no longer running,
/// scanned at `now`, the new result kept on success, the error recorded
/// (or cleared).
pub open spec fn finish_spec(
    st: PollerView,
    outcome: Result<Seq<ProcessView>, Seq<char>>,
    now: u64,
) -> (PayloadView, PollerView) {
    match outcome {
        Ok(ps) => (
            PayloadView { processes: ps, error: None, scanning: false },
            PollerView {
                in_flight: false,
                last_scan_at: Some(now),
                last_result: ps,
                last_error: None,
                ..st
            },
        ),
        Err(e) => (
            PayloadView { processes: st.last_result, error: Some(e), scanning: false },
            PollerView { in_flight: false, last_scan_at: Some(now), last_error: Some(e), ..st },
        ),
    }
}

/// The state after new scan settings: stored; when they differ from the
/// current ones, a new loop generation begins (wrapping at `u64::MAX`).
pub open spec fn settings_spec(st: PollerView, interval_ms: u64, include_udp: bool) -> (
    Option<u64>,
    PollerView,
) {
    let changed = st.interval_ms != interval_ms || st.include_udp != include_udp;
    let generation = if changed {
        if st.generation == u64::MAX {
            0
        } else {
            (st.generation + 1) as u64
        }
    } else {
        st.generation
    };
    (
        if changed {
            Some(generation)
        } else {
            None
        },
        PollerView { interval_ms, include_udp, generation, ..st },
    )
}

/// What a loop of generation `generation` does next.
pub open spec fn poll_step_spec(st: PollerView, generation: u64) -> PollStep {
    if st.generation != generation {
        PollStep::Stop
    } else if st.interval_ms == 0 || st.refresh_paused {
        PollStep::Idle
    } else {
        PollStep::Scan
    }
}

/// The wait after a scan that took `elapsed_ms`: what is left of the
/// interval, but never under 100 ms.
pub open spec fn poll_wait_spec(interval_ms: u64, elapsed_ms: u64) -> u64 {
    let left = if interval_ms > elapsed_ms {
        (interval_ms - elapsed_ms) as u64
    } else {
        0
    };
    if left > 100 {
        left
    } else {
        100
    }
}

/// The cache as a reader sees it: scanning while a first scan runs.
pub open spec fn cache_spec(st: PollerView) -> (PayloadView, bool, bool) {
    let complete = st.last_scan_at is Some;
    (
        PayloadView {
            processes: st.last_result,
            error: st.last_error,
            scanning: st.in_flight && !complete,
        },
        complete,
        st.in_flight,
    )
}

/// What a request for the ports does, `elapsed_ms` into its wait: answer
/// as soon as a scan has completed; start a scan once if none runs; after
/// 30 s answer with what there is and an error.
pub open spec fn wait_spec(st: PollerView, triggered: bool, elapsed_ms: u64) -> (
    bool,
    Option<PayloadView>,
) {
    let (payload, complete, in_flight) = cache_spec(st);
    if complete {
        (false, Some(PayloadView { scanning: false, ..payload }))
    } else {
        let trigger = !in_flight && !triggered;
        if elapsed_ms >= 30000 {
            (
                trigger,
                Some(
                    PayloadView {
                        processes: payload.processes,
                        error: Some(
                            match payload.error {
                                Some(e) => e,
                                None => "Scan timed out before completing"@,
                            },
                        ),
                        scanning: false,
                    },
                ),
            )
        } else {
            (trigger, None)
        }
    }
}

/// The plain values of a scan's outcome.
pub open spec fn outcome_view(o: Result<Vec<PortProcess>, String>) -> Result<
    Seq<ProcessView>,
    Seq<char>,
> {
    match o {
        Ok(ps) => Ok(processes_view(ps@)),
        Err(e) => Err(e@),
    }
}

/// The plain values of an optional payload.
pub open spec fn opt_payload_view(o: Option<PortsUpdatedPayload>) -> Option<PayloadView> {
    match o {
        Some(p) => Some(p@),
        None => None,
    }
}

/// The port poller: the cache of the last scan and the polling settings.
#[derive(Debug)]
pub struct PortPoller {
    inner: PollerInner,
}

impl View for PortPoller {
    type V = PollerView;

    closed spec fn view(&self) -> PollerView {
        self.inner@
    }
}

impl PortPoller {
    /// A poller that has not scanned yet.
    pub fn new() -> (r: Self)
        ensures
            r@ == initial_state(),
    {
        PortPoller { inner: PollerInner::default() }
    }

    /// Whether the process with `pid` in the last result is a system
    /// service; `None` when it is not listed.
    pub fn is_system_service(&self, pid: u32) -> (r: Option<bool>)
        ensures
            r == match find_index(self@.last_result, pid) {
                Some(i) => Some(self@.last_result[i].is_system_service),
                None => None,
            },
    {
        proof {
            lemma_find_index(self@.last_result, pid);
        }
        match find_position(&self.inner.last_result, pid) {
            Some(i) => Some(self.inner.last_result[i].is_system_service),
            None => None,
        }
    }

    /// The process with `pid` in the last result, if listed.
    pub fn find_by_pid(&self, pid: u32) -> (r: Option<PortProcess>)
        ensures
            match r {
                Some(p) => find_index(self@.last_result, pid) matches Some(i) && p@
                    == self@.last_result[i],
                None => find_index(self@.last_result, pid) is None,
            },
    {
        proof {
            lemma_find_index(self@.last_result, pid);
        }
        match find_position(&self.inner.last_result, pid) {
            Some(i) => Some(clone_process(&self.inner.last_result[i])),
            None => None,
        }
    }

    /// The processes of the last successful scan.
    pub fn snapshot(&self) -> (r: Vec<PortProcess>)
        ensures
            processes_view(r@) == self@.last_result,
    {
        clone_processes(&self.inner.last_result)
    }

    /// The cache as a reader sees it.
    pub fn read_cache(&self) -> (r: CacheSnapshot)
        ensures
            (r.payload@, r.scan_complete, r.in_flight) == cache_spec(self@),
    {
        let complete = self.inner.last_scan_at.is_some();
        let payload = PortsUpdatedPayload {
            processes: clone_processes(&self.inner.last_result),
            error: self.inner.last_error.clone(),
            scanning: self.inner.in_flight && !complete,
        };
        CacheSnapshot { payload, scan_complete: complete, in_flight: self.inner.in_flight }
    }

    /// Marks a scan as started, unless one is running; gives whether it
    /// should include UDP.
    pub fn begin_scan(&mut self) -> (r: Option<bool>)
        ensures
            (r, final(self)@) == begin_spec(old(self)@),
    {
        if self.inner.in_flight {
            return None;
        }
        self.inner.in_flight = true;
        Some(self.inner.include_udp)
    }

    /// Records the end of a scan at `now`; gives what the UI is told.
    pub fn finish_scan(&mut self, outcome: Result<Vec<PortProcess>, String>, now: u64) -> (r:
        PortsUpdatedPayload)
        ensures
            (r@, final(self)@) == finish_spec(old(self)@, outcome_view(outcome), now),
    {
        self.inner.in_flight = false;
        self.inner.last_scan_at = Some(now);
        match outcome {
            Ok(processes) => {
                self.inner.last_result = clone_processes(&processes);
                self.inner.last_error = None;
                PortsUpdatedPayload { processes, error: None, scanning: false }
            },
            Err(e) => {
                self.inner.last_error = Some(e.clone());
                PortsUpdatedPayload {
                    processes: clone_processes(&self.inner.last_result),
                    error: Some(e),
                    scanning: false,
                }
            },
        }
    }

    /// Stores new scan settings; gives the new loop generation when they
    /// changed (a new polling loop and a scan are then started).
    pub fn set_scan_settings(&mut self, interval_ms: u64, include_udp: bool) -> (r: Option<u64>)
        ensures
            (r, final(self)@) == settings_spec(old(self)@, interval_ms, include_udp),
    {
        let changed = self.inner.interval_ms != interval_ms || self.inner.include_udp
            != include_udp;
        self.inner.interval_ms = interval_ms;
        self.inner.include_udp = include_udp;
        if changed {
            self.inner.generation = self.inner.generation.wrapping_add(1);
            Some(self.inner.generation)
        } else {
            None
        }
    }

    /// Pauses or resumes polling.
    pub fn set_refresh_paused(&mut self, paused: bool)
        ensures
            final(self)@ == (PollerView { refresh_paused: paused, ..old(self)@ }),
    {
        self.inner.refresh_paused = paused;
    }

    /// The current loop generation.
    pub fn generation(&self) -> (r: u64)
        ensures
            r == self@.generation,
    {
        self.inner.generation
    }

    /// The polling interval, in milliseconds.
    pub fn interval_ms(&self) -> (r: u64)
        ensures
            r == self@.interval_ms,
    {
        self.inner.interval_ms
    }

    /// What the polling loop of `generation` does next.
    pub fn poll_step(&self, generation: u64) -> (r: PollStep)
        ensures
            r == poll_step_spec(self@, generation),
    {
        if self.inner.generation != generation {
            PollStep::Stop
        } else if self.inner.interval_ms == 0 || self.inner.refresh_paused {
            PollStep::Idle
        } else {
            PollStep::Scan
        }
    }

    /// Whether a loop of `generation` is still the current one.
    pub fn is_current(&self, generation: u64) -> (r: bool)
        ensures
            r == (self@.generation == generation),
    {
        self.inner.generation == generation
    }

    /// What a request for the ports does `elapsed_ms` into its wait;
    /// `triggered` tells whether it already started a scan.
    pub fn wait_step(&self, triggered: bool, elapsed_ms: u64) -> (r: WaitStep)
        ensures
            (r.trigger_scan, opt_payload_view(r.reply)) == wait_spec(self@, triggered, elapsed_ms),
    {
        let snapshot = self.read_cache();
        if snapshot.scan_complete {
            let p = snapshot.payload;
            return WaitStep {
                trigger_scan: false,
                reply: Some(PortsUpdatedPayload { processes: p.processes, error: p.error, scanning: false }),
            };
        }
        let trigger = !snapshot.in_flight && !triggered;
        if elapsed_ms >= 30000 {
            let p = snapshot.payload;
            let error = match p.error {
                Some(e) => e,
                None => crate::text::string_from("Scan timed out before completing"),
            };
            return WaitStep {
                trigger_scan: trigger,
                reply: Some(PortsUpdatedPayload { processes: p.processes, error: Some(error), scanning: false }),
            };
        }
        WaitStep { trigger_scan: trigger, reply: None }
    }
}

/// The wait after a scan that took `elapsed_ms` of an `interval_ms` cycle.
pub fn poll_wait(interval_ms: u64, elapsed_ms: u64) -> (r: u64)
    ensures
        r == poll_wait_spec(interval_ms, elapsed_ms),
{
    let left = interval_ms.saturating_sub(elapsed_ms);
    if left > 100 {
        left
    } else {
        100
    }
}

// ---------------------------------------------------------------------------
// Laws
// ---------------------------------------------------------------------------

/// At most one scan runs at a time: once a scan has started, asking again
/// is refused and changes nothing until it finishes.
pub proof fn law_one_scan_at_a_time(st: PollerView)
    requires
        begin_spec(st).0 is Some,
    ensures
        begin_spec(begin_spec(st).1).0 is None,
        begin_spec(begin_spec(st).1).1 == begin_spec(st).1,
{
}

/// A failed scan never loses the last good result: the cache keeps it and
/// the UI is sent it along with the error.
pub proof fn law_failed_scan_keeps_result(st: PollerView, error: Seq<char>, now: u64)
    ensures
        finish_spec(st, Err(error), now).1.last_result == st.last_result,
        finish_spec(st, Err(error), now).0.processes == st.last_result,
        finish_spec(st, Err(error), now).0.error == Some(error),
{
}

/// After any scan finishes, the cache is complete and no longer scanning,
/// and a waiting request is answered at once with what the scan left.
pub proof fn law_finished_scan_answers(
    st: PollerView,
    outcome: Result<Seq<ProcessView>, Seq<char>>,
    now: u64,
    triggered: bool,
    elapsed_ms: u64,
)
    ensures
        cache_spec(finish_spec(st, outcome, now).1).1,
        !cache_spec(finish_spec(st, outcome, now).1).0.scanning,
        !finish_spec(st, outcome, now).1.in_flight,
        wait_spec(finish_spec(st, outcome, now).1, triggered, elapsed_ms) == (
            false,
            Some(finish_spec(st, outcome, now).0),
        ),
{
}

/// Setting the same scan settings again restarts nothing.
pub proof fn law_same_settings_restart_nothing(st: PollerView, interval_ms: u64, include_udp: bool)
    ensures
        settings_spec(settings_spec(st, interval_ms, include_udp).1, interval_ms, include_udp).0 is None,
        settings_spec(settings_spec(st, interval_ms, include_udp).1, interval_ms, include_udp).1
            == settings_spec(st, interval_ms, include_udp).1,
{
    assert(settings_spec(settings_spec(st, interval_ms, include_udp).1, interval_ms, include_udp).1
        =~= settings_spec(st, interval_ms, include_udp).1);
}

/// Changing the settings starts a new loop generation: the running loop
/// stops at its next step, and only the new one goes on.
pub proof fn law_changed_settings_replace_the_loop(
    st: PollerView,
    interval_ms: u64,
    include_udp: bool,
)
    requires
        st.interval_ms != interval_ms || st.include_udp != include_udp,
    ensures
        settings_spec(st, interval_ms, include_udp).0 == Some(
            settings_spec(st, interval_ms, include_udp).1.generation,
        ),
        poll_step_spec(settings_spec(st, interval_ms, include_udp).1, st.generation)
            == PollStep::Stop,
        poll_step_spec(
            settings_spec(st, interval_ms, include_udp).1,
            settings_spec(st, interval_ms, include_udp).1.generation,
        ) != PollStep::Stop,
{
}

/// The loop never waits less than 100 ms after a scan, nor longer than the
/// interval (when that is at least 100 ms).
pub proof fn law_poll_wait_bounds(interval_ms: u64, elapsed_ms: u64)
    ensures
        poll_wait_spec(interval_ms, elapsed_ms) >= 100,
        poll_wait_spec(interval_ms, elapsed_ms) <= if interval_ms > 100 {
            interval_ms
        } else {
            100
        },
{
}

/// A request for the ports starts at most one scan: once it did, it never
/// asks again.
pub proof fn law_request_triggers_once(st: PollerView, elapsed_ms: u64)
    ensures
        !wait_spec(st, true, elapsed_ms).0,
{
}

/// With polling off (interval 0) or paused, the loop scans nothing: it only
/// looks again later, or stops when replaced.
pub proof fn law_off_or_paused_never_scans(st: PollerView, generation: u64)
    requires
        st.interval_ms == 0 || st.refresh_paused,
    ensures
        poll_step_spec(st, generation) != PollStep::Scan,
{
}

} // verus!
