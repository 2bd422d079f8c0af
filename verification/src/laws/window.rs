//! What the window shows, and what the engine reports to it.
use vstd::prelude::*;

use crate::gui::{
    engine_expects, failed, failure_prefix, last_of, logged, next_engine, shown, text_of_option,
    uptime, EngineAction, EngineEvent, EngineState, EngineStep, PanelView, StatsView,
    VpnStats,
};
use crate::text::two_digits;

verus! {

/// A time of so many hours, minutes and seconds is shown as those three, of two digits at
/// least, with colons between. Before the start there are dashes.
pub proof fn law_uptime(hours: nat, minutes: nat, seconds: nat)
    requires
        minutes < 60,
        seconds < 60,
        hours * 3600 + minutes * 60 + seconds <= u64::MAX,
    ensures
        uptime(Some((hours * 3600 + minutes * 60 + seconds) as u64)) == two_digits(hours) + seq![
            ':',
        ] + two_digits(minutes) + seq![':'] + two_digits(seconds),
        uptime(None) == seq!['-', '-', ':', '-', '-', ':', '-', '-'],
{
    let n = (hours * 3600 + minutes * 60 + seconds) as u64;
    assert(n / 3600 == hours);
    assert(n / 60 == hours * 60 + minutes);
    assert(n / 60 % 60 == minutes);
    assert(n % 60 == seconds);
    reveal_strlit(":");
    reveal_strlit("--:--:--");
    assert(":"@ =~= seq![':']);
    assert("--:--:--"@ =~= seq!['-', '-', ':', '-', '-', ':', '-', '-']);
}

/// The lines that are kept are the last ones, as many as there may be, in order.
pub proof fn law_last_lines(lines: Seq<Seq<char>>, n: int, i: int)
    requires
        0 <= n,
    ensures
        last_of(lines, n).len() == (if lines.len() < n {
            lines.len() as int
        } else {
            n
        }),
        0 <= i < last_of(lines, n).len() ==> last_of(lines, n)[i] == lines[lines.len() - last_of(
            lines,
            n,
        ).len() + i],
{
}

/// What the window shows after it took over a report: the counts of the report, its error
/// if it has one and else the error that was shown, and the last thousand of the lines
/// that were shown and the new ones.
pub proof fn law_shown(p: PanelView, stats: StatsView)
    ensures
        shown(p, stats).tcp_sessions == stats.tcp_sessions,
        shown(p, stats).udp_entries == stats.udp_entries,
        stats.error matches Some(e) ==> shown(p, stats).error == Some(e),
        stats.error is None ==> shown(p, stats).error == p.error,
        shown(p, stats).log.len() <= 1000,
        p.log.len() + stats.log.len() <= 1000 ==> shown(p, stats).log == p.log + stats.log,
        p.log.len() + stats.log.len() > 1000 ==> shown(p, stats).log == (p.log + stats.log).skip(
            p.log.len() + stats.log.len() - 1000,
        ),
{
}

/// A line more in the log changes the log alone.
pub proof fn law_logged(stats: StatsView, line: Seq<char>)
    ensures
        logged(stats, line).log == stats.log.push(line),
        logged(stats, line).running == stats.running,
        logged(stats, line).tcp_sessions == stats.tcp_sessions,
        logged(stats, line).udp_entries == stats.udp_entries,
        logged(stats, line).error == stats.error,
{
}

/// A failure is told as an error, and as the last line of the log unless there was no
/// runtime; the text ends with the cause and says what failed.
pub proof fn law_failed(stats: StatsView, step: EngineStep, cause: Seq<char>)
    ensures
        failed(stats, step, cause).error == Some(failure_prefix(step) + cause),
        step == EngineStep::MakeRuntime ==> failed(stats, step, cause).log == stats.log,
        step != EngineStep::MakeRuntime ==> failed(stats, step, cause).log == stats.log.push(
            failure_prefix(step) + cause,
        ),
        failed(stats, step, cause).running == stats.running,
        failed(stats, step, cause).tcp_sessions == stats.tcp_sessions,
        failed(stats, step, cause).udp_entries == stats.udp_entries,
        failure_prefix(EngineStep::MakeRuntime) == "Failed to create runtime: "@,
        failure_prefix(EngineStep::StartTor) == "Tor failed to start: "@,
        failure_prefix(EngineStep::MakeTun) == "TUN failed: "@,
        failure_prefix(EngineStep::FindInterface) == "Failed to find network interface: "@,
{
}

/// Text that may be missing.
pub proof fn law_text_of_option(s: Option<String>)
    ensures
        s is None <==> text_of_option(s) is None,
        s matches Some(t) ==> text_of_option(s) == Some(t@),
{
}

/// The way of the engine: Tor is started, the TUN device is made, the interface is found,
/// and then rounds go on until the user asks it to stop; the counts are shown only by a
/// round that says so, and nothing else but a line more is reported on the way.
pub proof fn law_engine_goes_on(state: EngineState, event: EngineEvent, stats: StatsView)
    requires
        engine_expects(state, event),
        !(event is Failed),
    ensures
        ({
            let (next, action, after) = next_engine(state, event, stats);
            &&& state == EngineState::StartingTor ==> next == EngineState::MakingTun && action
                == EngineAction::MakeTun && after.log == stats.log.push("Tor is ready."@).push(
                "Creating TUN interface..."@,
            )
            &&& state == EngineState::MakingTun ==> next == EngineState::FindingInterface && action
                == EngineAction::FindInterface && after.log == stats.log.push(
                "TUN interface ready."@,
            )
            &&& state == EngineState::FindingInterface ==> next == EngineState::Running && action
                == (EngineAction::CheckStop { pause: false }) && after.log == stats.log.push(
                "VPN is running."@,
            )
            &&& event == (EngineEvent::StopChecked { stop: false }) ==> next
                == EngineState::Running && action == EngineAction::RunRound && after == stats
            &&& event == (EngineEvent::StopChecked { stop: true }) ==> next == (
            EngineState::StoppingTor { failed: false }) && action == EngineAction::StopTor
                && after.log == stats.log.push("Shutting down..."@)
            &&& event matches EngineEvent::RoundDone { show, tcp_sessions, udp_entries } ==> next
                == EngineState::Running && action == (EngineAction::CheckStop { pause: true })
                && after.log == stats.log && after.tcp_sessions == (if show {
                tcp_sessions
            } else {
                stats.tcp_sessions
            }) && after.udp_entries == (if show {
                udp_entries
            } else {
                stats.udp_entries
            })
            &&& state == (EngineState::StoppingTor { failed: false }) ==> after.log
                == stats.log.push("VPN stopped."@)
            &&& state == (EngineState::StoppingTor { failed: true }) ==> after.log == stats.log
            &&& !(event is RoundDone) ==> after.tcp_sessions == stats.tcp_sessions
                && after.udp_entries == stats.udp_entries
            &&& after.error == stats.error
        }),
{
}

/// What the engine does when a step fails: the failure is told; a failure to start Tor
/// ends the engine, and any other stops Tor first.
pub proof fn law_engine_fails(state: EngineState, cause: String, stats: StatsView)
    requires
        engine_expects(state, EngineEvent::Failed { cause }),
    ensures
        ({
            let (next, action, after) = next_engine(state, EngineEvent::Failed { cause }, stats);
            let (step, last) = match state {
                EngineState::StartingTor => (EngineStep::StartTor, true),
                EngineState::MakingTun => (EngineStep::MakeTun, false),
                _ => (EngineStep::FindInterface, false),
            };
            &&& next == (if last {
                EngineState::Ended
            } else {
                EngineState::StoppingTor { failed: true }
            })
            &&& action == (if last {
                EngineAction::End
            } else {
                EngineAction::StopTor
            })
            &&& after.error == Some(failure_prefix(step) + cause@)
            &&& after.log == stats.log.push(failure_prefix(step) + cause@)
            &&& after.tcp_sessions == stats.tcp_sessions
            &&& after.udp_entries == stats.udp_entries
            &&& after.running == (stats.running && !last)
        }),
{
}

/// Which event can come while the engine does what.
pub proof fn law_engine_events(event: EngineEvent, failed: bool)
    ensures
        engine_expects(EngineState::StartingTor, event) <==> event is Done || event is Failed,
        engine_expects(EngineState::MakingTun, event) <==> event is Done || event is Failed,
        engine_expects(EngineState::FindingInterface, event) <==> event is Done || event is Failed,
        engine_expects(EngineState::Running, event) <==> event is StopChecked
            || event is RoundDone,
        engine_expects(EngineState::StoppingTor { failed }, event) <==> event is Done,
        !engine_expects(EngineState::Ended, event),
{
}

/// What is known of a report is what it holds.
pub proof fn law_report_of_the_engine(stats: VpnStats)
    ensures
        stats@.running == stats.running,
        stats@.tcp_sessions == stats.tcp_sessions,
        stats@.udp_entries == stats.udp_entries,
        stats.error matches Some(e) ==> stats@.error == Some(e@),
        stats.error is None ==> stats@.error is None,
        stats@.log.len() == stats.log@.len(),
        forall|i: int| 0 <= i < stats.log@.len() ==> stats@.log[i] == stats.log@[i]@,
{
}

} // verus!
