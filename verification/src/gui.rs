//! What the window shows of the VPN: the engine's side, which fills it, and the
//! window's side, which takes it over from time to time.
use vstd::prelude::*;

use crate::text::{append_two_digits, two_digits};
use crate::tun::strings;

verus! {

/// How many lines the window keeps of the log.
pub const LOG_LIMIT: usize = 1000;

/// What the engine reports.
pub struct VpnStats {
    pub running: bool,
    pub tcp_sessions: usize,
    pub udp_entries: usize,
    /// The error that the window has not taken over yet.
    pub error: Option<String>,
    /// The lines that the window has not taken over yet.
    pub log: Vec<String>,
}

/// What a `VpnStats` says.
#[verifier::ext_equal]
pub struct StatsView {
    pub running: bool,
    pub tcp_sessions: usize,
    pub udp_entries: usize,
    pub error: Option<Seq<char>>,
    pub log: Seq<Seq<char>>,
}

/// The text, if there is one.
pub open spec fn text_of_option(s: Option<String>) -> Option<Seq<char>> {
    match s {
        Some(t) => Some(t@),
        None => None,
    }
}

impl View for VpnStats {
    type V = StatsView;

    open spec fn view(&self) -> StatsView {
        StatsView {
            running: self.running,
            tcp_sessions: self.tcp_sessions,
            udp_entries: self.udp_entries,
            error: text_of_option(self.error),
            log: strings(self.log@),
        }
    }
}

/// A step of the engine that can fail.
#[derive(Debug, Clone, Copy, PartialEq, Eq, Structural)]
pub enum EngineStep {
    MakeRuntime,
    StartTor,
    MakeTun,
    FindInterface,
}

/// How the failure of `step` is told, before its cause.
pub open spec fn failure_prefix(step: EngineStep) -> Seq<char> {
    match step {
        EngineStep::MakeRuntime => "Failed to create runtime: "@,
        EngineStep::StartTor => "Tor failed to start: "@,
        EngineStep::MakeTun => "TUN failed: "@,
        EngineStep::FindInterface => "Failed to find network interface: "@,
    }
}

/// How the failure of `step` for the reason `cause` is told.
pub fn failure_text(step: EngineStep, cause: &str) -> (r: String)
    ensures
        r@ == failure_prefix(step) + cause@,
{
    let mut s = match step {
        EngineStep::MakeRuntime => "Failed to create runtime: ".to_owned(),
        EngineStep::StartTor => "Tor failed to start: ".to_owned(),
        EngineStep::MakeTun => "TUN failed: ".to_owned(),
        EngineStep::FindInterface => "Failed to find network interface: ".to_owned(),
    };
    s.append(cause);
    s
}

impl VpnStats {
    /// The report before the engine is started.
    pub fn new() -> (r: VpnStats)
        ensures
            r@ == (StatsView {
                running: false,
                tcp_sessions: 0,
                udp_entries: 0,
                error: None,
                log: Seq::empty(),
            }),
    {
        let r = VpnStats {
            running: false,
            tcp_sessions: 0,
            udp_entries: 0,
            error: None,
            log: Vec::new(),
        };
        assert(r@.log =~= Seq::<Seq<char>>::empty());
        r
    }

    /// The engine starts: what was reported of an earlier run is forgotten, but for
    /// the counts.
    pub fn start(&mut self)
        ensures
            final(self)@ == (StatsView {
                running: true,
                error: None,
                log: Seq::empty(),
                ..old(self)@
            }),
    {
        self.running = true;
        self.error = None;
        self.log = Vec::new();
        assert(self@.log =~= Seq::<Seq<char>>::empty());
    }

    /// Appends a line to the log.
    pub fn log_msg(&mut self, msg: String)
        ensures
            final(self)@ == logged(old(self)@, msg@),
    {
        let ghost before = self@.log;
        self.log.push(msg);
        assert(self@.log =~= before.push(msg@));
    }

    /// Tells that `step` failed for the reason `cause`: in the log too, unless there
    /// is no runtime for the engine.
    pub fn fail(&mut self, step: EngineStep, cause: &str)
        ensures
            final(self)@ == failed(old(self)@, step, cause@),
    {
        if step != EngineStep::MakeRuntime {
            self.log_msg(failure_text(step, cause));
        }
        self.error = Some(failure_text(step, cause));
    }

    /// The engine stops.
    pub fn stop(&mut self)
        ensures
            final(self)@ == (StatsView { running: false, ..old(self)@ }),
    {
        self.running = false;
    }

    /// Tells how many sessions and table entries there are.
    pub fn count(&mut self, tcp_sessions: usize, udp_entries: usize)
        ensures
            final(self)@ == (StatsView { tcp_sessions, udp_entries, ..old(self)@ }),
    {
        self.tcp_sessions = tcp_sessions;
        self.udp_entries = udp_entries;
    }
}

/// Where the engine stands.
#[derive(Debug, Clone, Copy, PartialEq, Eq, Structural)]
pub enum EngineState {
    StartingTor,
    MakingTun,
    FindingInterface,
    Running,
    /// Tor is being stopped, after a failure or because the user asked for it.
    StoppingTor { failed: bool },
    Ended,
}

/// What came of the engine's last action.
#[derive(Debug)]
pub enum EngineEvent {
    /// It succeeded, or its failure does not matter.
    Done,
    /// It failed.
    Failed { cause: String },
    /// Whether the user asked the engine to stop.
    StopChecked { stop: bool },
    /// A round is over; the counts are shown if `show`.
    RoundDone { show: bool, tcp_sessions: usize, udp_entries: usize },
}

/// What the engine has to do next.
#[derive(Debug, Clone, Copy, PartialEq, Eq, Structural)]
pub enum EngineAction {
    StartTor,
    MakeTun,
    FindInterface,
    /// See whether the user asked the engine to stop, if `pause` after five
    /// milliseconds.
    CheckStop { pause: bool },
    RunRound,
    StopTor,
    End,
}

/// The events that can come while the engine is in `state`.
pub open spec fn engine_expects(state: EngineState, event: EngineEvent) -> bool {
    match state {
        EngineState::StartingTor => event is Done || event is Failed,
        EngineState::MakingTun => event is Done || event is Failed,
        EngineState::FindingInterface => event is Done || event is Failed,
        EngineState::Running => event is StopChecked || event is RoundDone,
        EngineState::StoppingTor { .. } => event is Done,
        EngineState::Ended => false,
    }
}

/// `stats` with one line more in the log.
pub open spec fn logged(stats: StatsView, line: Seq<char>) -> StatsView {
    StatsView { log: stats.log.push(line), ..stats }
}

/// `stats` when `step` has failed for the reason `cause`.
pub open spec fn failed(stats: StatsView, step: EngineStep, cause: Seq<char>) -> StatsView {
    StatsView {
        error: Some(failure_prefix(step) + cause),
        log: if step == EngineStep::MakeRuntime {
            stats.log
        } else {
            stats.log.push(failure_prefix(step) + cause)
        },
        ..stats
    }
}

/// The next state and action of the engine, and what it has reported then.
pub open spec fn next_engine(
    state: EngineState,
    event: EngineEvent,
    stats: StatsView,
) -> (EngineState, EngineAction, StatsView) {
    match (state, event) {
        (EngineState::StartingTor, EngineEvent::Failed { cause }) => (
            EngineState::Ended,
            EngineAction::End,
            StatsView { running: false, ..failed(stats, EngineStep::StartTor, cause@) },
        ),
        (EngineState::StartingTor, _) => (
            EngineState::MakingTun,
            EngineAction::MakeTun,
            logged(logged(stats, "Tor is ready."@), "Creating TUN interface..."@),
        ),
        (EngineState::MakingTun, EngineEvent::Failed { cause }) => (
            EngineState::StoppingTor { failed: true },
            EngineAction::StopTor,
            failed(stats, EngineStep::MakeTun, cause@),
        ),
        (EngineState::MakingTun, _) => (
            EngineState::FindingInterface,
            EngineAction::FindInterface,
            logged(stats, "TUN interface ready."@),
        ),
        (EngineState::FindingInterface, EngineEvent::Failed { cause }) => (
            EngineState::StoppingTor { failed: true },
            EngineAction::StopTor,
            failed(stats, EngineStep::FindInterface, cause@),
        ),
        (EngineState::FindingInterface, _) => (
            EngineState::Running,
            EngineAction::CheckStop { pause: false },
            logged(stats, "VPN is running."@),
        ),
        (EngineState::Running, EngineEvent::StopChecked { stop: true }) => (
            EngineState::StoppingTor { failed: false },
            EngineAction::StopTor,
            logged(stats, "Shutting down..."@),
        ),
        (EngineState::Running, EngineEvent::RoundDone { show, tcp_sessions, udp_entries }) => (
            EngineState::Running,
            EngineAction::CheckStop { pause: true },
            if show {
                StatsView { tcp_sessions, udp_entries, ..stats }
            } else {
                stats
            },
        ),
        (EngineState::Running, _) => (EngineState::Running, EngineAction::RunRound, stats),
        (EngineState::StoppingTor { failed: true }, _) => (
            EngineState::Ended,
            EngineAction::End,
            StatsView { running: false, ..stats },
        ),
        (EngineState::StoppingTor { failed: false }, _) => (
            EngineState::Ended,
            EngineAction::End,
            logged(StatsView { running: false, ..stats }, "VPN stopped."@),
        ),
        (EngineState::Ended, _) => (EngineState::Ended, EngineAction::End, stats),
    }
}

/// The first state and action of the engine.
pub fn begin_engine(stats: &mut VpnStats) -> (r: (EngineState, EngineAction))
    ensures
        r == (EngineState::StartingTor, EngineAction::StartTor),
        final(stats)@ == logged(old(stats)@, "Starting Tor..."@),
{
    stats.log_msg("Starting Tor...".to_owned());
    (EngineState::StartingTor, EngineAction::StartTor)
}

/// The next state and action of the engine after `event`, which came of its last
/// action. What the engine does is reported in `stats`.
pub fn step_engine(state: EngineState, event: EngineEvent, stats: &mut VpnStats) -> (r: (
    EngineState,
    EngineAction,
))
    requires
        engine_expects(state, event),
    ensures
        (r.0, r.1, final(stats)@) == next_engine(state, event, old(stats)@),
{
    match state {
        EngineState::StartingTor => {
            if let EngineEvent::Failed { cause } = event {
                stats.fail(EngineStep::StartTor, cause.as_str());
                stats.stop();
                return (EngineState::Ended, EngineAction::End);
            }
            stats.log_msg("Tor is ready.".to_owned());
            stats.log_msg("Creating TUN interface...".to_owned());
            (EngineState::MakingTun, EngineAction::MakeTun)
        },
        EngineState::MakingTun => {
            if let EngineEvent::Failed { cause } = event {
                stats.fail(EngineStep::MakeTun, cause.as_str());
                return (EngineState::StoppingTor { failed: true }, EngineAction::StopTor);
            }
            stats.log_msg("TUN interface ready.".to_owned());
            (EngineState::FindingInterface, EngineAction::FindInterface)
        },
        EngineState::FindingInterface => {
            if let EngineEvent::Failed { cause } = event {
                stats.fail(EngineStep::FindInterface, cause.as_str());
                return (EngineState::StoppingTor { failed: true }, EngineAction::StopTor);
            }
            stats.log_msg("VPN is running.".to_owned());
            (EngineState::Running, EngineAction::CheckStop { pause: false })
        },
        EngineState::Running => match event {
            EngineEvent::StopChecked { stop: true } => {
                stats.log_msg("Shutting down...".to_owned());
                (EngineState::StoppingTor { failed: false }, EngineAction::StopTor)
            },
            EngineEvent::RoundDone { show, tcp_sessions, udp_entries } => {
                if show {
                    stats.count(tcp_sessions, udp_entries);
                }
                (EngineState::Running, EngineAction::CheckStop { pause: true })
            },
            _ => (EngineState::Running, EngineAction::RunRound),
        },
        EngineState::StoppingTor { failed } => {
            stats.stop();
            if !failed {
                stats.log_msg("VPN stopped.".to_owned());
            }
            (EngineState::Ended, EngineAction::End)
        },
        EngineState::Ended => (EngineState::Ended, EngineAction::End),
    }
}

/// The engine is reported as running until it ends and not after. Once Tor has been
/// started, the engine ends only after it has stopped Tor, whatever fails.
pub proof fn lemma_engine_ends_in_order(state: EngineState, event: EngineEvent, stats: StatsView)
    requires
        engine_expects(state, event),
        stats.running,
    ensures
        ({
            let (next, action, after) = next_engine(state, event, stats);
            &&& after.running <==> next != EngineState::Ended
            &&& action == EngineAction::End <==> next == EngineState::Ended
            &&& next == EngineState::Ended <==> state is StoppingTor || (state
                == EngineState::StartingTor && event is Failed)
            &&& action == EngineAction::StopTor <==> next is StoppingTor
        }),
{
}

/// What the window shows.
pub struct Panel {
    tcp_sessions: usize,
    udp_entries: usize,
    error: Option<String>,
    log: Vec<String>,
}

/// What a `Panel` shows.
#[verifier::ext_equal]
pub struct PanelView {
    pub tcp_sessions: usize,
    pub udp_entries: usize,
    pub error: Option<Seq<char>>,
    pub log: Seq<Seq<char>>,
}

impl View for Panel {
    type V = PanelView;

    closed spec fn view(&self) -> PanelView {
        PanelView {
            tcp_sessions: self.tcp_sessions,
            udp_entries: self.udp_entries,
            error: text_of_option(self.error),
            log: strings(self.log@),
        }
    }
}

/// What the window has to do after it took over the report.
#[derive(Debug, Clone, Copy, PartialEq, Eq, Structural)]
pub struct Upkeep {
    pub running: bool,
    /// The engine's thread has ended: it is to be joined, and the start time
    /// forgotten.
    pub join: bool,
    /// The window is to be drawn again after half a second.
    pub repaint: bool,
}

/// The last `n` elements, or all if there are fewer.
pub open spec fn last_of(s: Seq<Seq<char>>, n: int) -> Seq<Seq<char>> {
    if s.len() > n {
        s.skip(s.len() - n)
    } else {
        s
    }
}

/// What the window shows after it took over `stats`.
pub open spec fn shown(p: PanelView, stats: StatsView) -> PanelView {
    PanelView {
        tcp_sessions: stats.tcp_sessions,
        udp_entries: stats.udp_entries,
        error: if stats.error is Some {
            stats.error
        } else {
            p.error
        },
        log: last_of(p.log + stats.log, LOG_LIMIT as int),
    }
}

impl Panel {
    /// The log is no longer than it may be.
    pub open spec fn wf(self) -> bool {
        self@.log.len() <= LOG_LIMIT
    }

    /// A window that shows nothing yet.
    pub fn new() -> (r: Panel)
        ensures
            r.wf(),
            r@ == (PanelView { tcp_sessions: 0, udp_entries: 0, error: None, log: Seq::empty() }),
    {
        let r = Panel { tcp_sessions: 0, udp_entries: 0, error: None, log: Vec::new() };
        assert(r@.log =~= Seq::<Seq<char>>::empty());
        r
    }

    /// Takes over what the engine reports: the counts, the error if there is one,
    /// and the new lines of the log, of which the last are kept. `has_thread` tells
    /// whether there is a thread of the engine.
    pub fn sync(&mut self, stats: &mut VpnStats, has_thread: bool) -> (r: Upkeep)
        requires
            old(self).wf(),
        ensures
            final(self).wf(),
            final(self)@ == shown(old(self)@, old(stats)@),
            final(stats)@ == (StatsView { error: None, log: Seq::empty(), ..old(stats)@ }),
            r == (Upkeep {
                running: old(stats)@.running,
                join: !old(stats)@.running && has_thread,
                repaint: old(stats)@.running,
            }),
    {
        let ghost panel0 = self@;
        let ghost stats0 = stats@;
        self.tcp_sessions = stats.tcp_sessions;
        self.udp_entries = stats.udp_entries;
        if let Some(msg) = stats.error.take() {
            self.error = Some(msg);
        }
        self.log.append(&mut stats.log);
        assert(strings(self.log@) =~= panel0.log + stats0.log);
        assert(stats@.log =~= Seq::<Seq<char>>::empty());
        if self.log.len() > LOG_LIMIT {
            let cut: usize = self.log.len() - LOG_LIMIT;
            let ghost all = self.log@;
            let kept = self.log.split_off(cut);
            self.log = kept;
            assert(strings(self.log@) =~= strings(all).skip(cut as int));
        }
        assert(self@ =~= shown(panel0, stats0));
        Upkeep { running: stats.running, join: !stats.running && has_thread, repaint: stats.running }
    }

    /// The user starts the engine: the error is no longer shown.
    pub fn clear_error(&mut self)
        ensures
            final(self)@ == (PanelView { error: None, ..old(self)@ }),
    {
        self.error = None;
    }

    /// How many sessions are shown.
    pub fn tcp_sessions(&self) -> (r: usize)
        ensures
            r == self@.tcp_sessions,
    {
        self.tcp_sessions
    }

    /// How many table entries are shown.
    pub fn udp_entries(&self) -> (r: usize)
        ensures
            r == self@.udp_entries,
    {
        self.udp_entries
    }

    /// The error that is shown.
    pub fn error(&self) -> (r: &Option<String>)
        ensures
            text_of_option(*r) == self@.error,
    {
        &self.error
    }

    /// The lines that are shown.
    pub fn log(&self) -> (r: &Vec<String>)
        ensures
            strings(r@) == self@.log,
    {
        &self.log
    }
}

/// The time since the start, as text: hours, minutes and seconds, of two digits at
/// least, or dashes before the start.
pub open spec fn uptime(seconds: Option<u64>) -> Seq<char> {
    match seconds {
        Some(n) => two_digits((n / 3600) as nat) + ":"@ + two_digits((n / 60 % 60) as nat) + ":"@
            + two_digits((n % 60) as nat),
        None => "--:--:--"@,
    }
}

/// The time since the start, as text.
pub fn format_uptime(seconds: Option<u64>) -> (r: String)
    ensures
        r@ == uptime(seconds),
{
    match seconds {
        Some(n) => {
            let mut s = "".to_owned();
            proof {
                reveal_strlit("");
            }
            assert(s@ =~= Seq::<char>::empty());
            append_two_digits(&mut s, n / 3600);
            s.append(":");
            append_two_digits(&mut s, n / 60 % 60);
            s.append(":");
            append_two_digits(&mut s, n % 60);
            assert(s@ =~= uptime(seconds));
            s
        },
        None => "--:--:--".to_owned(),
    }
}

/// The lines of two reports that come one after the other are shown as those of
/// one report that holds them all.
pub proof fn lemma_log_is_continued(shown_log: Seq<Seq<char>>, a: Seq<Seq<char>>, b: Seq<Seq<char>>)
    ensures
        last_of(last_of(shown_log + a, LOG_LIMIT as int) + b, LOG_LIMIT as int) == last_of(
            shown_log + (a + b),
            LOG_LIMIT as int,
        ),
{
    let once = last_of(shown_log + a, LOG_LIMIT as int) + b;
    let all = shown_log + (a + b);
    assert(last_of(once, LOG_LIMIT as int) =~= last_of(all, LOG_LIMIT as int));
}

} // verus!
