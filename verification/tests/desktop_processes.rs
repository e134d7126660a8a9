use webcodex::desktop::{
    debug_line, desktop_actions, paths_message, setup_message, setup_steps, DesktopAction,
    DesktopEvent, SetupStep,
};
use webcodex::json::{parse_json, JsonValue};
use webcodex::machine_events::{
    machine_event_is_progress, machine_event_is_terminal, MachineEventState, Received,
    MACHINE_CRITICAL_RESERVE, MACHINE_EVENT_CAPACITY,
};
use webcodex::process_activity::{
    exited, observation_failed, observation_summary, started, stop_ended, stopping,
    ActivityEventKind, ActivityLevel, ShownError, ShownTree,
};
use webcodex::process_diagnostic::{
    begins_anew, diagnostic_lines, managed_process_diagnostic_path, with_diagnostic_file,
    StatePlaces, PROCESS_DIAGNOSTIC_MAX_BYTES,
};
use webcodex::process_key::{ProcessKey, TunnelProfileId};
use webcodex::process_output::{
    process_line, push_log, recent_logs, LineAssembler, OutputLine, LOG_LINES, LOG_LINE_BYTES,
    MACHINE_LINE_BYTES,
};
use webcodex::process_supervisor::{
    begin_stop, needs_observation, observe_process, spawn_options, step_stop, stop_order,
    wait_for_tree_exit, ManagedProcess, Notice, Observation, ProcessPhase, ProcessSupervisor,
    SpawnAdmission, SpawnRefusal, StartAnswer, StartStage, StartStep, StopEnd, StopStage, StopStep,
    TreeState, WaitStep,
};

fn event(text: &str) -> JsonValue {
    parse_json(text).unwrap()
}

#[test]
fn machine_event_progress_flood_stays_bounded_and_ready_is_observed() {
    let mut state = MachineEventState::new();
    for sequence in 0..10_000_u64 {
        state.send(event(&format!(
            "{{\"event\": \"progress\", \"sequence\": {sequence}}}"
        )));
    }
    state.send(event("{\"event\": \"ready\", \"schema_version\": 1}"));
    state.close();

    assert!(state.queue.len() <= MACHINE_EVENT_CAPACITY);

    let mut ready = false;
    while let Received::Event(value) = state.receive(None) {
        if value.text_field("event") == Some("ready") {
            ready = true;
            break;
        }
    }
    assert!(ready, "readiness event must survive a noisy progress flood");
}

#[test]
fn critical_overflow_is_explicit_and_terminal_event_is_retained() {
    let mut state = MachineEventState::new();
    for sequence in 0..MACHINE_EVENT_CAPACITY {
        state.send(event(&format!(
            "{{\"event\": \"diagnostic\", \"sequence\": {sequence}}}"
        )));
    }
    state.send(event("{\"event\": \"terminal\", \"status\": \"failed\"}"));
    state.close();

    let mut saw_overflow = false;
    let mut saw_terminal = false;
    while let Received::Event(value) = state.receive(None) {
        match value.text_field("event") {
            Some("machine_event_overflow") => saw_overflow = true,
            Some("terminal") => saw_terminal = true,
            _ => {}
        }
    }
    assert!(saw_overflow, "critical loss must never be silent");
    assert!(saw_terminal, "terminal event must remain observable");
    assert!(matches!(state.receive(None), Received::Closed));
}

#[test]
fn progress_leaves_room_for_what_matters() {
    let mut state = MachineEventState::new();
    for _ in 0..MACHINE_EVENT_CAPACITY {
        state.send(event("{\"event\": \"progress\"}"));
    }
    assert_eq!(
        state.queue.len(),
        MACHINE_EVENT_CAPACITY - MACHINE_CRITICAL_RESERVE
    );
    assert_eq!(state.dropped_progress, 0);
    for _ in 0..=MACHINE_CRITICAL_RESERVE {
        state.send(event("{\"event\": \"diagnostic\"}"));
    }
    assert_eq!(state.queue.len(), MACHINE_EVENT_CAPACITY);
    assert_eq!((state.dropped_progress, state.dropped_critical), (1, 0));
    assert!(matches!(MachineEventState::new().receive(None), Received::Pending));
    assert!(machine_event_is_progress(&event("{\"event\": \"progress\"}")));
    assert!(!machine_event_is_progress(&event("{\"event\": \"ready\"}")));
    assert!(machine_event_is_terminal(&event("{\"event\": \"ready\"}")));
    assert!(!machine_event_is_terminal(&event("{\"event\": \"diagnostic\"}")));
}

#[test]
fn a_child_cannot_choose_its_profile() {
    let mut state = MachineEventState::new();
    state.send(event("{\"event\": \"ready\", \"tunnel_profile_id\": \"9\"}"));
    let profile = TunnelProfileId { value: 7 };
    match state.receive(Some(profile)) {
        Received::Event(value) => {
            assert_ne!(value.text_field("tunnel_profile_id"), Some("9"));
            assert_eq!(value.text_field("event"), Some("ready"));
        }
        other => panic!("{other:?}"),
    }
}

#[test]
fn supervisor_only_stops_children_it_owns() {
    let mut supervisor = ProcessSupervisor::new();
    assert!(supervisor.release(ProcessKey::LocalRunner).is_none());
    assert!(supervisor.snapshot(ProcessKey::LocalRunner).is_none());
}

#[test]
fn process_kind_has_no_generic_process_surface() {
    let kinds = [
        ProcessKey::LocalServer,
        ProcessKey::LocalRunner,
        ProcessKey::QuickShare,
        ProcessKey::RegularTunnel(TunnelProfileId::default()),
    ];
    assert_eq!(kinds.len(), 4);
}

#[test]
fn keys_name_their_source_and_profile() {
    let profile = TunnelProfileId { value: 3 };
    assert_eq!(ProcessKey::LocalServer.source(), "service");
    assert_eq!(ProcessKey::LocalRunner.source(), "runner");
    assert_eq!(ProcessKey::QuickShare.source(), "quick_share");
    assert_eq!(ProcessKey::RegularTunnel(profile).source(), "regular_tunnel");
    assert_eq!(
        ProcessKey::RegularTunnel(profile).tunnel_profile_id(),
        Some(profile)
    );
    assert_eq!(ProcessKey::QuickShare.tunnel_profile_id(), None);
}

#[test]
fn reads_may_be_cut_anywhere() {
    let output = b"one\ntwo\nthree";
    for cut in 0..output.len() {
        let mut assembler = LineAssembler::new(false);
        let mut complete = assembler.feed(&output[..cut]);
        complete.extend(assembler.feed(&output[cut..]));
        assert_eq!(complete, [b"one".to_vec(), b"two".to_vec()]);
        assert_eq!(assembler.finish(), Some(b"three".to_vec()));
    }
    assert_eq!(LineAssembler::new(true).finish(), None);
}

#[test]
fn long_lines_are_cut() {
    let mut assembler = LineAssembler::new(false);
    let long = vec![b'x'; LOG_LINE_BYTES + 10];
    assert!(assembler.feed(&long).is_empty());
    assert_eq!(assembler.finish().unwrap().len(), LOG_LINE_BYTES);
    let mut assembler = LineAssembler::new(true);
    let long = vec![b'x'; MACHINE_LINE_BYTES + 10];
    assert!(assembler.feed(&long).is_empty());
    assert_eq!(assembler.finish().unwrap().len(), MACHINE_LINE_BYTES);
}

#[test]
fn lines_are_events_or_log() {
    assert!(matches!(process_line(b"  \r", true, true), OutputLine::Blank));
    assert!(matches!(
        process_line(b"{\"event\": \"ready\"}", true, true),
        OutputLine::Event(_)
    ));
    match process_line(b"{\"event\": \"ready\"}", true, false) {
        OutputLine::Log(line) => assert_eq!(line, "{\"event\": \"ready\"}"),
        other => panic!("{other:?}"),
    }
    match process_line(b" plain \xff", true, true) {
        OutputLine::Log(line) => assert_eq!(line, "plain \u{fffd}"),
        other => panic!("{other:?}"),
    }
}

#[test]
fn the_log_keeps_its_last_lines() {
    let mut logs = std::collections::VecDeque::new();
    for index in 0..LOG_LINES + 5 {
        push_log(&mut logs, "stderr", &format!("line {index}"));
    }
    assert_eq!(logs.len(), LOG_LINES);
    let recent = recent_logs(&logs, 2);
    assert_eq!(recent.len(), 2);
    assert!(recent[1].contains(&format!("line {}", LOG_LINES + 4)));
    assert!(recent[0].contains(&format!("line {}", LOG_LINES + 3)));
}

fn owned(supervisor: &mut ProcessSupervisor, key: ProcessKey, pid: u32) -> u64 {
    let generation = supervisor.reserve_generation().unwrap();
    supervisor.insert(key, generation, pid);
    generation
}

#[test]
fn a_key_has_at_most_one_process() {
    let mut supervisor = ProcessSupervisor::new();
    assert_eq!(
        supervisor.admission(ProcessKey::LocalServer),
        SpawnAdmission::Start
    );
    let first = owned(&mut supervisor, ProcessKey::LocalServer, 10);
    assert_eq!(
        supervisor.admission(ProcessKey::LocalServer),
        SpawnAdmission::Refused(SpawnRefusal::AlreadyRunning)
    );
    let snapshot = supervisor.snapshot(ProcessKey::LocalServer).unwrap();
    assert_eq!(snapshot.generation, first);
    assert_eq!(snapshot.pid, Some(10));
    assert!(snapshot.owned_by_desktop);
    assert!(supervisor.holds_generation(ProcessKey::LocalServer, first));
    assert!(!supervisor.holds_generation(ProcessKey::LocalServer, first + 1));
    let notices = supervisor.refresh(&vec![Observation::Ended { code: Some(1), success: false }]);
    assert_eq!(notices.len(), 1);
    assert!(matches!(notices[0], Notice::Ended { success: false }));
    assert_eq!(
        supervisor.admission(ProcessKey::LocalServer),
        SpawnAdmission::StopFirst
    );
    assert!(supervisor.confirm_stopped(ProcessKey::LocalServer).is_err());
    assert_eq!(supervisor.release(ProcessKey::LocalServer).unwrap().generation, first);
    assert!(supervisor.confirm_stopped(ProcessKey::LocalServer).is_ok());
    let second = owned(&mut supervisor, ProcessKey::LocalServer, 11);
    assert!(second > first);
}

#[test]
fn refusals_say_what_to_do() {
    assert_eq!(SpawnRefusal::AlreadyRunning.code(), "process_already_running");
    assert_eq!(
        SpawnRefusal::AlreadyRunning.advice(),
        "Stop the existing Desktop-owned process first."
    );
    assert_eq!(SpawnRefusal::StopUnconfirmed.code(), "process_stop_unconfirmed");
    assert_eq!(
        SpawnRefusal::StopUnconfirmed.advice(),
        "Retry stopping the Desktop-owned process before replacing it."
    );
    assert_eq!(
        SpawnRefusal::GenerationsExhausted.code(),
        "process_generation_exhausted"
    );
    assert_eq!(SpawnRefusal::GenerationsExhausted.advice(), "Restart Desktop.");
    let mut supervisor = ProcessSupervisor { processes: Vec::new(), next_generation: u64::MAX };
    assert!(matches!(
        supervisor.reserve_generation(),
        Err(SpawnRefusal::GenerationsExhausted)
    ));
}

#[test]
fn refusals_say_what_happened() {
    assert_eq!(
        SpawnRefusal::AlreadyRunning.message("LocalRunner"),
        "Desktop already owns an active LocalRunner process"
    );
    assert_eq!(
        SpawnRefusal::StopUnconfirmed.message("LocalRunner"),
        "Process cleanup could not be confirmed"
    );
    assert_eq!(
        SpawnRefusal::GenerationsExhausted.message("LocalRunner"),
        "Process generations are exhausted"
    );
    assert_eq!(
        SpawnRefusal::NotStarted.message("QuickShare"),
        "Could not start the QuickShare process"
    );
    assert_eq!(SpawnRefusal::NoOutput.message("x"), "Could not capture process output");
    assert_eq!(SpawnRefusal::NoDiagnostics.message("x"), "Could not capture process diagnostics");
    assert_eq!(SpawnRefusal::NotStarted.code(), "process_start_failed");
    assert_eq!(
        SpawnRefusal::NotStarted.advice(),
        "Check the configured WebCodex binaries and retry."
    );
    assert_eq!(SpawnRefusal::NoOutput.advice(), "Retry the operation.");
}

#[test]
fn a_start_goes_by_what_is_held() {
    let key = ProcessKey::LocalServer;
    let mut supervisor = ProcessSupervisor::new();
    assert_eq!(
        supervisor.step_start(key, StartStage::Refresh, StartAnswer::Done),
        StartStep::Do(StartStage::Start { generation: 1 })
    );
    let failed = StartAnswer::Started(Err(SpawnRefusal::NotStarted));
    assert_eq!(
        supervisor.step_start(key, StartStage::Start { generation: 1 }, failed),
        StartStep::Refused(SpawnRefusal::NotStarted)
    );
    assert!(supervisor.snapshot(key).is_none());
    assert_eq!(
        supervisor.step_start(key, StartStage::Refresh, StartAnswer::Done),
        StartStep::Do(StartStage::Start { generation: 2 })
    );
    assert_eq!(
        supervisor.step_start(
            key,
            StartStage::Start { generation: 2 },
            StartAnswer::Started(Ok(77))
        ),
        StartStep::Owned { generation: 2 }
    );
    assert_eq!(supervisor.snapshot(key).unwrap().pid, Some(77));
    assert_eq!(
        supervisor.step_start(key, StartStage::Refresh, StartAnswer::Done),
        StartStep::Refused(SpawnRefusal::AlreadyRunning)
    );
    supervisor.refresh(&vec![Observation::Ended { code: Some(0), success: true }]);
    assert_eq!(
        supervisor.step_start(key, StartStage::Refresh, StartAnswer::Done),
        StartStep::Do(StartStage::Stop)
    );
    assert_eq!(
        supervisor.step_start(key, StartStage::Stop, StartAnswer::Done),
        StartStep::Refused(SpawnRefusal::StopUnconfirmed)
    );
    supervisor.release(key);
    assert_eq!(
        supervisor.step_start(key, StartStage::Stop, StartAnswer::Done),
        StartStep::Do(StartStage::Start { generation: 3 })
    );
}

#[test]
fn a_process_is_started_as_its_key_asks() {
    let runner = spawn_options(ProcessKey::LocalRunner, false);
    assert!(runner.silent_child_breakaway);
    assert!(!runner.receives_events);
    assert!(!runner.parses_events);
    let tunnel = spawn_options(ProcessKey::RegularTunnel(TunnelProfileId::default()), false);
    assert!(!tunnel.silent_child_breakaway);
    assert!(!tunnel.receives_events);
    assert!(tunnel.parses_events);
    let share = spawn_options(ProcessKey::QuickShare, true);
    assert!(share.receives_events);
    assert!(share.parses_events);
}

#[test]
fn a_failed_observation_is_announced_once() {
    let process = ManagedProcess {
        key: ProcessKey::LocalRunner,
        generation: 1,
        pid: 5,
        phase: ProcessPhase::Running,
        exit_code: None,
        observation_failures: 0,
    };
    assert!(needs_observation(&process));
    let (process, notice) = observe_process(&process, Observation::Unobservable(TreeState::Active));
    assert!(matches!(notice, Notice::FirstFailure));
    let (process, notice) = observe_process(&process, Observation::Unobservable(TreeState::Active));
    assert!(matches!(notice, Notice::Nothing));
    let (process, notice) =
        observe_process(&process, Observation::Ended { code: Some(0), success: true });
    assert!(matches!(notice, Notice::Ended { success: true }));
    assert_eq!(process.phase, ProcessPhase::Exited);
    assert_eq!(process.exit_code, Some(0));
    assert!(!needs_observation(&process));
}

#[test]
fn stopping_begins_with_what_is_exposed() {
    let tunnel = ProcessKey::RegularTunnel(TunnelProfileId { value: 1 });
    let keys = vec![
        ProcessKey::LocalServer,
        tunnel,
        ProcessKey::LocalRunner,
        ProcessKey::QuickShare,
    ];
    assert_eq!(
        stop_order(&keys),
        [
            ProcessKey::QuickShare,
            tunnel,
            ProcessKey::LocalRunner,
            ProcessKey::LocalServer
        ]
    );
    let mut supervisor = ProcessSupervisor::new();
    owned(&mut supervisor, ProcessKey::LocalServer, 1);
    owned(&mut supervisor, ProcessKey::QuickShare, 2);
    let mut owned_keys = supervisor.keys();
    owned_keys.sort_by_key(|key| key.source());
    assert_eq!(owned_keys, [ProcessKey::QuickShare, ProcessKey::LocalServer]);
}

#[test]
fn stopping_asks_before_it_forces() {
    let deadline = 5000;
    let after_input = |key: ProcessKey, phase: ProcessPhase| {
        let stage = begin_stop(key, phase);
        assert_eq!(stage, StopStage::CloseInput { key, phase });
        step_stop(stage, true, 0, deadline)
    };
    assert_eq!(
        after_input(ProcessKey::LocalRunner, ProcessPhase::Running),
        StopStep::Do(StopStage::WaitForEof { until: 250 })
    );
    assert_eq!(
        after_input(ProcessKey::QuickShare, ProcessPhase::Running),
        StopStep::Do(StopStage::WaitForEof { until: 5000 })
    );
    assert_eq!(
        after_input(ProcessKey::QuickShare, ProcessPhase::Exited),
        StopStep::Do(StopStage::CheckAgain)
    );
    let mut stage = begin_stop(ProcessKey::LocalRunner, ProcessPhase::Running);
    let mut closed = false;
    let mut forced = false;
    let mut looks = 0;
    let end = loop {
        let answer = match stage {
            StopStage::CloseInput { .. } => {
                assert!(!closed);
                closed = true;
                true
            }
            StopStage::RequestEnd => {
                assert!(closed);
                true
            }
            StopStage::Force => {
                assert!(closed);
                forced = true;
                assert!(looks > 0);
                true
            }
            StopStage::Check | StopStage::CheckAgain | StopStage::CheckLast => {
                looks += 1;
                forced
            }
            _ => false,
        };
        match step_stop(stage, answer, 300, deadline) {
            StopStep::Do(next) => stage = next,
            StopStep::End(end) => break end,
        }
    };
    assert!(forced);
    assert_eq!(end, StopEnd::Stopped);
    assert_eq!(
        step_stop(StopStage::CheckLast, false, 300, deadline),
        StopStep::End(StopEnd::Retained)
    );
}

#[test]
fn waiting_ends_at_the_deadline() {
    assert_eq!(wait_for_tree_exit(true, 10, 5), WaitStep::Ended);
    assert_eq!(wait_for_tree_exit(false, 10, 5), WaitStep::TimedOut);
    assert_eq!(wait_for_tree_exit(false, 10, 100), WaitStep::SleepUntil(30));
    assert_eq!(wait_for_tree_exit(false, 90, 100), WaitStep::SleepUntil(100));
}

#[test]
fn a_process_that_is_given_back_is_kept() {
    let mut supervisor = ProcessSupervisor::new();
    owned(&mut supervisor, ProcessKey::LocalRunner, 1);
    let process = supervisor.release(ProcessKey::LocalRunner).unwrap();
    assert!(supervisor.snapshot(ProcessKey::LocalRunner).is_none());
    supervisor.retain(process);
    assert_eq!(
        supervisor.snapshot(ProcessKey::LocalRunner).unwrap().pid,
        Some(1)
    );
}

#[test]
fn diagnostics_go_where_state_goes() {
    let mut places = StatePlaces {
        local_app_data: true,
        state_home: true,
        home: true,
    };
    let place = managed_process_diagnostic_path(true, &places).unwrap();
    assert_eq!(place.root.name(), "LOCALAPPDATA");
    assert_eq!(place.names, ["WebCodex", "diagnostics", "managed-process.log"]);
    let place = managed_process_diagnostic_path(false, &places).unwrap();
    assert_eq!(place.root.name(), "XDG_STATE_HOME");
    assert_eq!(place.names, ["webcodex", "diagnostics", "managed-process.log"]);
    places.state_home = false;
    let place = managed_process_diagnostic_path(false, &places).unwrap();
    assert_eq!(place.root.name(), "HOME");
    assert_eq!(
        place.names,
        [".local", "state", "webcodex", "diagnostics", "managed-process.log"]
    );
    places.home = false;
    assert!(managed_process_diagnostic_path(false, &places).is_none());
    places.local_app_data = false;
    assert!(managed_process_diagnostic_path(true, &places).is_none());
}

#[test]
fn diagnostics_are_indented_below_their_head() {
    assert_eq!(
        diagnostic_lines(7, "LocalRunner", 12, 3, "failed", &vec!["a".to_string(), "b".to_string()]),
        ["[7] kind=LocalRunner pid=12 generation=3 failed", "  a", "  b"]
    );
    assert!(!begins_anew(Some(PROCESS_DIAGNOSTIC_MAX_BYTES)));
    assert!(begins_anew(Some(PROCESS_DIAGNOSTIC_MAX_BYTES + 1)));
    assert!(!begins_anew(None));
    assert_eq!(with_diagnostic_file("s", Some("/f")), "s; diagnostic_file=/f");
    assert_eq!(with_diagnostic_file("s", None), "s");
}

#[test]
fn the_desktop_hides_and_shuts_down() {
    assert_eq!(
        desktop_actions(DesktopEvent::CloseRequested { main_window: true }, true),
        [DesktopAction::PreventClose, DesktopAction::HideMainWindow]
    );
    assert!(desktop_actions(DesktopEvent::CloseRequested { main_window: true }, false).is_empty());
    assert!(desktop_actions(DesktopEvent::CloseRequested { main_window: false }, true).is_empty());
    assert_eq!(
        desktop_actions(DesktopEvent::Reopen { has_visible_windows: false }, true),
        [DesktopAction::ShowMainWindow]
    );
    assert!(desktop_actions(DesktopEvent::Reopen { has_visible_windows: true }, true).is_empty());
    assert_eq!(
        desktop_actions(DesktopEvent::ExitRequested, true),
        [DesktopAction::MarkExitRequested, DesktopAction::Shutdown]
    );
    assert_eq!(desktop_actions(DesktopEvent::Exit, true), [DesktopAction::Shutdown]);
    assert!(desktop_actions(DesktopEvent::Other, true).is_empty());
    assert!(!setup_steps(true).contains(&SetupStep::ShowMainWindow));
    assert_eq!(setup_steps(false).last(), Some(&SetupStep::ShowMainWindow));
    assert_eq!(debug_line(5, "x"), "[5] x");
    assert_eq!(setup_message("/bin/w"), "desktop_app phase=setup_begin exe=/bin/w");
    assert_eq!(
        paths_message("/d", "/r"),
        "desktop_app phase=paths_resolved data_dir=/d resource_dir=/r"
    );
}

#[test]
fn activity_tells_what_happened() {
    assert_eq!(started(12).message, "Desktop started the process (PID 12)");
    assert_eq!(started(12).kind, ActivityEventKind::ProcessStarted);
    let ended = exited(false, "exit status: 3");
    assert_eq!(ended.level, ActivityLevel::Error);
    assert_eq!(
        ended.message,
        "Desktop-owned process exited with status exit status: 3"
    );
    assert_eq!(exited(true, "exit status: 0").level, ActivityLevel::Info);
    let error = |text: &str| ShownError {
        kind: "Other".to_string(),
        raw_os_error: "Some(5)".to_string(),
        error: text.to_string(),
    };
    let summary = observation_summary(
        "LocalRunner",
        7,
        2,
        &error("denied"),
        &ShownTree::Unavailable(error("gone")),
    );
    assert_eq!(
        summary,
        "Desktop could not observe the child process state: kind=LocalRunner, pid=7, \
         generation=2, io_kind=Other, raw_os_error=Some(5), error=denied, \
         job_tree=unavailable(kind=Other, raw_os_error=Some(5), error=gone)"
    );
    assert!(observation_summary("k", 1, 1, &error("e"), &ShownTree::Empty)
        .ends_with("job_tree=empty"));
    assert!(observation_summary("k", 1, 1, &error("e"), &ShownTree::Active)
        .ends_with("job_tree=active"));
    let entries = observation_failed("summary", &vec!["a".to_string(), "b".to_string()]);
    let messages: Vec<_> = entries.iter().map(|entry| entry.message.as_str()).collect();
    assert_eq!(
        messages,
        [
            "summary",
            "Recent managed-process diagnostic: a",
            "Recent managed-process diagnostic: b"
        ]
    );
    assert_eq!(stopping().message, "Stopping the Desktop-owned process");
    assert_eq!(stop_ended(true).kind, ActivityEventKind::ProcessStopped);
    assert_eq!(
        stop_ended(false).message,
        "Process cleanup is unconfirmed; Desktop retained ownership for retry"
    );
}
