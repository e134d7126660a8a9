//! What the Desktop does when it starts and on the events of its window.
use vstd::prelude::*;

use crate::text;
use crate::text::{decimal_text, joined};

verus! {

/// The file beside the program that a run's debug lines go to.
pub const TUNNEL_DEBUG_LOG_NAME: &'static str = "WebCodex-Tunnel-Debug.log";

/// A line of the debug log: when, and what.
pub fn debug_line(timestamp_ms: u64, message: &str) -> (line: String)
    ensures
        line@ == "["@ + text::decimal(timestamp_ms as nat) + "] "@ + message@,
{
    let line = joined("[", decimal_text(timestamp_ms).as_str());
    joined(joined(line.as_str(), "] ").as_str(), message)
}

/// What the first line of a run says.
pub fn setup_message(executable: &str) -> (message: String)
    ensures
        message@ == "desktop_app phase=setup_begin exe="@ + executable@,
{
    joined("desktop_app phase=setup_begin exe=", executable)
}

/// What is said when the places of data and resources are known.
pub fn paths_message(data_dir: &str, resource_dir: &str) -> (message: String)
    ensures
        message@ == "desktop_app phase=paths_resolved data_dir="@ + data_dir@ + " resource_dir="@
            + resource_dir@,
{
    let message = joined("desktop_app phase=paths_resolved data_dir=", data_dir);
    joined(joined(message.as_str(), " resource_dir=").as_str(), resource_dir)
}

/// A step of the start.
#[derive(Debug, Clone, Copy, PartialEq, Eq, Structural)]
pub enum SetupStep {
    ResetLog,
    ResolvePaths,
    CreateState,
    CreateShell,
    SetUpTray,
    RefreshTray,
    ShowMainWindow,
}

/// The steps of the start, first to last. A start in the background shows no
/// window.
pub fn setup_steps(background: bool) -> (steps: Vec<SetupStep>)
    ensures
        steps@ == seq![
            SetupStep::ResetLog,
            SetupStep::ResolvePaths,
            SetupStep::CreateState,
            SetupStep::CreateShell,
            SetupStep::SetUpTray,
            SetupStep::RefreshTray,
        ] + (if background {
            Seq::empty()
        } else {
            seq![SetupStep::ShowMainWindow]
        }),
{
    let mut steps = vec![
        SetupStep::ResetLog,
        SetupStep::ResolvePaths,
        SetupStep::CreateState,
        SetupStep::CreateShell,
        SetupStep::SetUpTray,
        SetupStep::RefreshTray,
    ];
    if !background {
        steps.push(SetupStep::ShowMainWindow);
    }
    steps
}

/// An event of the running Desktop.
#[derive(Debug, Clone, Copy, PartialEq, Eq, Structural)]
pub enum DesktopEvent {
    CloseRequested { main_window: bool },
    Reopen { has_visible_windows: bool },
    ExitRequested,
    Exit,
    Other,
}

/// What is done on an event.
#[derive(Debug, Clone, Copy, PartialEq, Eq, Structural)]
pub enum DesktopAction {
    PreventClose,
    HideMainWindow,
    ShowMainWindow,
    MarkExitRequested,
    Shutdown,
}

/// What is done on an event, first to last. Closing the main window hides it
/// where the shell hides on close.
pub open spec fn actions_on(event: DesktopEvent, hides_on_close: bool) -> Seq<DesktopAction> {
    match event {
        DesktopEvent::CloseRequested { main_window } => if main_window && hides_on_close {
            seq![DesktopAction::PreventClose, DesktopAction::HideMainWindow]
        } else {
            Seq::empty()
        },
        DesktopEvent::Reopen { has_visible_windows } => if has_visible_windows {
            Seq::empty()
        } else {
            seq![DesktopAction::ShowMainWindow]
        },
        DesktopEvent::ExitRequested => seq![
            DesktopAction::MarkExitRequested,
            DesktopAction::Shutdown,
        ],
        DesktopEvent::Exit => seq![DesktopAction::Shutdown],
        DesktopEvent::Other => Seq::empty(),
    }
}

/// What is done on an event, first to last.
pub fn desktop_actions(event: DesktopEvent, hides_on_close: bool) -> (actions: Vec<DesktopAction>)
    ensures
        actions@ == actions_on(event, hides_on_close),
{
    match event {
        DesktopEvent::CloseRequested { main_window } => if main_window && hides_on_close {
            vec![DesktopAction::PreventClose, DesktopAction::HideMainWindow]
        } else {
            Vec::new()
        },
        DesktopEvent::Reopen { has_visible_windows } => if has_visible_windows {
            Vec::new()
        } else {
            vec![DesktopAction::ShowMainWindow]
        },
        DesktopEvent::ExitRequested => vec![
            DesktopAction::MarkExitRequested,
            DesktopAction::Shutdown,
        ],
        DesktopEvent::Exit => vec![DesktopAction::Shutdown],
        DesktopEvent::Other => Vec::new(),
    }
}

/// Owned processes are shut down on the way out and on no other event.
pub proof fn law_shutdown_is_for_the_way_out(event: DesktopEvent, hides_on_close: bool)
    ensures
        actions_on(event, hides_on_close).contains(DesktopAction::Shutdown) <==> (event
            is ExitRequested || event is Exit),
{
    let actions = actions_on(event, hides_on_close);
    if event is ExitRequested {
        assert(actions[1] == DesktopAction::Shutdown);
    } else if event is Exit {
        assert(actions[0] == DesktopAction::Shutdown);
    }
}

/// What is done on each event: the main window hides where the system hides windows
/// on closing, and closes where it does not; another window closes; a reopening shows
/// the main window where none is to be seen; the way out is marked before everything
/// is shut down.
pub proof fn law_events_are_answered(
    main_window: bool,
    has_visible_windows: bool,
    hides_on_close: bool,
)
    ensures
        main_window && hides_on_close ==> actions_on(
            DesktopEvent::CloseRequested { main_window },
            hides_on_close,
        ) == seq![DesktopAction::PreventClose, DesktopAction::HideMainWindow],
        !main_window || !hides_on_close ==> actions_on(
            DesktopEvent::CloseRequested { main_window },
            hides_on_close,
        ).len() == 0,
        !has_visible_windows ==> actions_on(
            DesktopEvent::Reopen { has_visible_windows },
            hides_on_close,
        ) == seq![DesktopAction::ShowMainWindow],
        has_visible_windows ==> actions_on(
            DesktopEvent::Reopen { has_visible_windows },
            hides_on_close,
        ).len() == 0,
        actions_on(DesktopEvent::ExitRequested, hides_on_close) == seq![
            DesktopAction::MarkExitRequested,
            DesktopAction::Shutdown,
        ],
        actions_on(DesktopEvent::Exit, hides_on_close) == seq![DesktopAction::Shutdown],
        actions_on(DesktopEvent::Other, hides_on_close).len() == 0,
{
}

/// The start of the Desktop goes through its steps in this order, and shows the main
/// window last, unless it starts in the background.
pub proof fn law_window_is_shown_last(background: bool, steps: Vec<SetupStep>)
    requires
        call_ensures(setup_steps, (background,), steps),
    ensures
        background ==> steps@.len() == 6,
        !background ==> steps@.len() == 7 && steps@[6] == SetupStep::ShowMainWindow,
        steps@[0] == SetupStep::ResetLog && steps@[1] == SetupStep::ResolvePaths && steps@[2]
            == SetupStep::CreateState && steps@[3] == SetupStep::CreateShell && steps@[4]
            == SetupStep::SetUpTray && steps@[5] == SetupStep::RefreshTray,
{
}

/// What is written to the log says when, and the messages of the start name the
/// program and the directories, each in its own place.
pub proof fn law_log_says_when_and_where(
    timestamp_ms: u64,
    message: &str,
    line: String,
    executable: &str,
    begun: String,
    data_dir: &str,
    resource_dir: &str,
    resolved: String,
)
    requires
        call_ensures(debug_line, (timestamp_ms, message), line),
        call_ensures(setup_message, (executable,), begun),
        call_ensures(paths_message, (data_dir, resource_dir), resolved),
    ensures
        line@ == "["@ + text::decimal(timestamp_ms as nat) + "] "@ + message@,
        begun@ == "desktop_app phase=setup_begin exe="@ + executable@,
        resolved@ == "desktop_app phase=paths_resolved data_dir="@ + data_dir@ + " resource_dir="@
            + resource_dir@,
{
}

} // verus!
