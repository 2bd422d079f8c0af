use tor_vpn::gui::{
    begin_engine, failure_text, format_uptime, step_engine, EngineAction, EngineEvent, EngineState,
    EngineStep, Panel, Upkeep, VpnStats, LOG_LIMIT,
};

#[test]
fn new_stats() {
    let s = VpnStats::new();
    assert!(!s.running);
    assert_eq!((s.tcp_sessions, s.udp_entries), (0, 0));
    assert_eq!(s.error, None);
    assert!(s.log.is_empty());
}

#[test]
fn a_run_of_the_engine() {
    let mut s = VpnStats::new();
    s.count(3, 4);
    s.fail(EngineStep::StartTor, "no binary");
    assert_eq!(s.error.as_deref(), Some("Tor failed to start: no binary"));
    assert_eq!(s.log, ["Tor failed to start: no binary"]);
    s.start();
    assert!(s.running);
    assert_eq!(s.error, None);
    assert!(s.log.is_empty());
    assert_eq!((s.tcp_sessions, s.udp_entries), (3, 4));
    s.log_msg("VPN is running.".to_string());
    s.fail(EngineStep::MakeRuntime, "x");
    assert_eq!(s.error.as_deref(), Some("Failed to create runtime: x"));
    assert_eq!(s.log, ["VPN is running."]);
    s.stop();
    assert!(!s.running);
}

#[test]
fn failure_texts() {
    assert_eq!(failure_text(EngineStep::MakeTun, "e"), "TUN failed: e");
    assert_eq!(
        failure_text(EngineStep::FindInterface, "e"),
        "Failed to find network interface: e"
    );
}

#[test]
fn the_panel_takes_over() {
    let mut p = Panel::new();
    let mut s = VpnStats::new();
    s.start();
    s.count(2, 5);
    s.log_msg("a".to_string());
    s.fail(EngineStep::MakeTun, "e");
    let up = p.sync(&mut s, true);
    assert_eq!(up, Upkeep { running: true, join: false, repaint: true });
    assert_eq!((p.tcp_sessions(), p.udp_entries()), (2, 5));
    assert_eq!(p.error().as_deref(), Some("TUN failed: e"));
    assert_eq!(*p.log(), ["a", "TUN failed: e"]);
    assert_eq!(s.error, None);
    assert!(s.log.is_empty());
    // The error stays until it is cleared.
    s.stop();
    let up = p.sync(&mut s, true);
    assert_eq!(up, Upkeep { running: false, join: true, repaint: false });
    assert!(p.error().is_some());
    p.clear_error();
    assert!(p.error().is_none());
    assert!(!p.sync(&mut s, false).join);
}

#[test]
fn the_log_keeps_its_last_lines() {
    let mut p = Panel::new();
    let mut s = VpnStats::new();
    for i in 0..LOG_LIMIT {
        s.log_msg(format!("{}", i));
    }
    p.sync(&mut s, false);
    assert_eq!(p.log().len(), LOG_LIMIT);
    assert_eq!(p.log()[0], "0");
    for i in 0..5 {
        s.log_msg(format!("new {}", i));
    }
    p.sync(&mut s, false);
    assert_eq!(p.log().len(), LOG_LIMIT);
    assert_eq!(p.log()[0], "5");
    assert_eq!(p.log()[LOG_LIMIT - 1], "new 4");
}

#[test]
fn uptimes() {
    assert_eq!(format_uptime(None), "--:--:--");
    assert_eq!(format_uptime(Some(0)), "00:00:00");
    assert_eq!(format_uptime(Some(59)), "00:00:59");
    assert_eq!(format_uptime(Some(3661)), "01:01:01");
    assert_eq!(format_uptime(Some(360_000 + 59 * 60)), "100:59:00");
}

#[test]
fn the_engine_runs_and_stops() {
    let mut s = VpnStats::new();
    s.start();
    let (state, action) = begin_engine(&mut s);
    assert_eq!((state, action), (EngineState::StartingTor, EngineAction::StartTor));
    let (state, action) = step_engine(state, EngineEvent::Done, &mut s);
    assert_eq!((state, action), (EngineState::MakingTun, EngineAction::MakeTun));
    let (state, action) = step_engine(state, EngineEvent::Done, &mut s);
    assert_eq!(action, EngineAction::FindInterface);
    let (state, action) = step_engine(state, EngineEvent::Done, &mut s);
    assert_eq!(action, EngineAction::CheckStop { pause: false });
    let (state, action) = step_engine(state, EngineEvent::StopChecked { stop: false }, &mut s);
    assert_eq!(action, EngineAction::RunRound);
    let done = EngineEvent::RoundDone { show: false, tcp_sessions: 9, udp_entries: 9 };
    let (state, action) = step_engine(state, done, &mut s);
    assert_eq!(action, EngineAction::CheckStop { pause: true });
    assert_eq!(s.tcp_sessions, 0);
    let done = EngineEvent::RoundDone { show: true, tcp_sessions: 1, udp_entries: 2 };
    let (state, _) = step_engine(state, done, &mut s);
    assert_eq!((s.tcp_sessions, s.udp_entries), (1, 2));
    let (state, action) = step_engine(state, EngineEvent::StopChecked { stop: true }, &mut s);
    assert_eq!(action, EngineAction::StopTor);
    assert!(s.running);
    let (state, action) = step_engine(state, EngineEvent::Done, &mut s);
    assert_eq!((state, action), (EngineState::Ended, EngineAction::End));
    assert!(!s.running);
    assert_eq!(
        s.log,
        [
            "Starting Tor...",
            "Tor is ready.",
            "Creating TUN interface...",
            "TUN interface ready.",
            "VPN is running.",
            "Shutting down...",
            "VPN stopped.",
        ]
    );
}

#[test]
fn the_engine_fails() {
    let failed = || EngineEvent::Failed { cause: "x".to_string() };
    let mut s = VpnStats::new();
    s.start();
    let (state, action) = step_engine(EngineState::StartingTor, failed(), &mut s);
    assert_eq!((state, action), (EngineState::Ended, EngineAction::End));
    assert!(!s.running);
    assert_eq!(s.error.as_deref(), Some("Tor failed to start: x"));

    for (at, text) in [
        (EngineState::MakingTun, "TUN failed: x"),
        (EngineState::FindingInterface, "Failed to find network interface: x"),
    ] {
        let mut s = VpnStats::new();
        s.start();
        let (state, action) = step_engine(at, failed(), &mut s);
        assert_eq!(action, EngineAction::StopTor);
        assert!(s.running);
        let (state, action) = step_engine(state, EngineEvent::Done, &mut s);
        assert_eq!((state, action), (EngineState::Ended, EngineAction::End));
        assert!(!s.running);
        assert_eq!(s.error.as_deref(), Some(text));
        assert_eq!(s.log, [text]);
    }
}
