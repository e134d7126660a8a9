//! The file in which failures to observe a process are kept.
use vstd::prelude::*;

use crate::text;
use crate::text::{decimal_text, joined};

verus! {

/// A diagnostic file that has grown beyond this many bytes is begun anew.
pub const PROCESS_DIAGNOSTIC_MAX_BYTES: u64 = 2097152;

/// The variables of the environment that name places for state.
#[derive(Debug, Clone, Copy, PartialEq, Eq, Structural)]
pub enum StateVariable {
    LocalAppData,
    StateHome,
    Home,
}

/// The name of a variable.
pub open spec fn variable_name(variable: StateVariable) -> Seq<char> {
    match variable {
        StateVariable::LocalAppData => "LOCALAPPDATA"@,
        StateVariable::StateHome => "XDG_STATE_HOME"@,
        StateVariable::Home => "HOME"@,
    }
}

impl StateVariable {
    /// The name of the variable.
    pub fn name(self) -> (name: &'static str)
        ensures
            name@ == variable_name(self),
    {
        match self {
            StateVariable::LocalAppData => "LOCALAPPDATA",
            StateVariable::StateHome => "XDG_STATE_HOME",
            StateVariable::Home => "HOME",
        }
    }
}

/// Which of the variables are set. What they hold need not be text.
#[derive(Debug, Clone, Copy, PartialEq, Eq, Structural)]
pub struct StatePlaces {
    pub local_app_data: bool,
    pub state_home: bool,
    pub home: bool,
}

/// A place below a directory: the variable that names the directory, and the names
/// that lead from it.
#[derive(Debug)]
pub struct PlaceBelow {
    pub root: StateVariable,
    pub names: Vec<&'static str>,
}

/// The names along a path.
pub open spec fn names(parts: Seq<&'static str>) -> Seq<Seq<char>> {
    Seq::new(parts.len(), |i: int| parts[i]@)
}

/// Where the diagnostic file is: the directory and the names that lead from it.
pub open spec fn diagnostic_place(windows: bool, places: StatePlaces) -> Option<
    (StateVariable, Seq<Seq<char>>),
> {
    if windows {
        if places.local_app_data {
            Some(
                (
                    StateVariable::LocalAppData,
                    seq!["WebCodex"@, "diagnostics"@, "managed-process.log"@],
                ),
            )
        } else {
            None
        }
    } else if places.state_home {
        Some(
            (
                StateVariable::StateHome,
                seq!["webcodex"@, "diagnostics"@, "managed-process.log"@],
            ),
        )
    } else if places.home {
        Some(
            (
                StateVariable::Home,
                seq![
                    ".local"@,
                    "state"@,
                    "webcodex"@,
                    "diagnostics"@,
                    "managed-process.log"@,
                ],
            ),
        )
    } else {
        None
    }
}

/// Where the diagnostic file is; nowhere where the environment names no place.
pub fn managed_process_diagnostic_path(windows: bool, places: &StatePlaces) -> (place: Option<
    PlaceBelow,
>)
    ensures
        match place {
            Some(place) => diagnostic_place(windows, *places) == Some(
                (place.root, names(place.names@)),
            ),
            None => diagnostic_place(windows, *places) is None,
        },
{
    if windows {
        if !places.local_app_data {
            return None;
        }
        let parts = vec!["WebCodex", "diagnostics", "managed-process.log"];
        assert(names(parts@) =~= seq!["WebCodex"@, "diagnostics"@, "managed-process.log"@]);
        Some(PlaceBelow { root: StateVariable::LocalAppData, names: parts })
    } else if places.state_home {
        let parts = vec!["webcodex", "diagnostics", "managed-process.log"];
        assert(names(parts@) =~= seq!["webcodex"@, "diagnostics"@, "managed-process.log"@]);
        Some(PlaceBelow { root: StateVariable::StateHome, names: parts })
    } else if places.home {
        let parts = vec![".local", "state", "webcodex", "diagnostics", "managed-process.log"];
        assert(names(parts@) =~= seq![
            ".local"@,
            "state"@,
            "webcodex"@,
            "diagnostics"@,
            "managed-process.log"@,
        ]);
        Some(PlaceBelow { root: StateVariable::Home, names: parts })
    } else {
        None
    }
}

/// Whether the file is begun anew; `length` is missing where its length cannot
/// be told.
pub fn begins_anew(length: Option<u64>) -> (anew: bool)
    ensures
        anew == (length matches Some(bytes) && bytes > PROCESS_DIAGNOSTIC_MAX_BYTES),
{
    match length {
        Some(bytes) => bytes > PROCESS_DIAGNOSTIC_MAX_BYTES,
        None => false,
    }
}

/// The first line of a diagnostic.
pub open spec fn head_line(
    timestamp_ms: u64,
    kind: Seq<char>,
    pid: u32,
    generation: u64,
    summary: Seq<char>,
) -> Seq<char> {
    "["@ + text::decimal(timestamp_ms as nat) + "] kind="@ + kind + " pid="@ + text::decimal(
        pid as nat,
    ) + " generation="@ + text::decimal(generation as nat) + " "@ + summary
}

/// The lines of a diagnostic: what happened to which process, and below it the
/// last lines of the process, indented.
pub open spec fn diagnostic_text(
    timestamp_ms: u64,
    kind: Seq<char>,
    pid: u32,
    generation: u64,
    summary: Seq<char>,
    recent: Seq<Seq<char>>,
) -> Seq<Seq<char>> {
    seq![head_line(timestamp_ms, kind, pid, generation, summary)] + Seq::new(
        recent.len(),
        |i: int| "  "@ + recent[i],
    )
}

/// The lines of a diagnostic.
pub fn diagnostic_lines(
    timestamp_ms: u64,
    kind: &str,
    pid: u32,
    generation: u64,
    summary: &str,
    recent: &Vec<String>,
) -> (lines: Vec<String>)
    ensures
        text::texts(lines@) == diagnostic_text(
            timestamp_ms,
            kind@,
            pid,
            generation,
            summary@,
            text::texts(recent@),
        ),
{
    let head = joined("[", decimal_text(timestamp_ms).as_str());
    let head = joined(joined(head.as_str(), "] kind=").as_str(), kind);
    let head = joined(joined(head.as_str(), " pid=").as_str(), decimal_text(pid as u64).as_str());
    let head = joined(
        joined(head.as_str(), " generation=").as_str(),
        decimal_text(generation).as_str(),
    );
    let head = joined(joined(head.as_str(), " ").as_str(), summary);
    let mut lines: Vec<String> = Vec::new();
    lines.push(head);
    let mut i: usize = 0;
    while i < recent.len()
        invariant
            i <= recent@.len(),
            lines@.len() == i + 1,
            lines@[0]@ == head_line(timestamp_ms, kind@, pid, generation, summary@),
            forall|j: int| 0 <= j < i ==> #[trigger] lines@[j + 1]@ == "  "@ + recent@[j]@,
        decreases recent@.len() - i,
    {
        lines.push(joined("  ", recent[i].as_str()));
        i = i + 1;
        assert forall|j: int| 0 <= j < i implies #[trigger] lines@[j + 1]@ == "  "@
            + recent@[j]@ by {}
    }
    proof {
        let wanted = diagnostic_text(
            timestamp_ms,
            kind@,
            pid,
            generation,
            summary@,
            text::texts(recent@),
        );
        assert forall|j: int| 0 <= j < wanted.len() implies #[trigger] text::texts(lines@)[j]
            == wanted[j] by {
            if j > 0 {
                assert(lines@[(j - 1) + 1]@ == "  "@ + recent@[j - 1]@);
            }
        }
        assert(text::texts(lines@) =~= wanted);
    }
    lines
}

/// What is said of a failure to observe: with the file that holds more of it,
/// where it could be written.
pub fn with_diagnostic_file(summary: &str, path: Option<&str>) -> (said: String)
    ensures
        said@ == match path {
            Some(path) => summary@ + "; diagnostic_file="@ + path@,
            None => summary@,
        },
{
    match path {
        Some(path) => joined(joined(summary, "; diagnostic_file=").as_str(), path),
        None => summary.to_owned(),
    }
}

/// Where the diagnostics of processes are kept: on Windows below the local data of
/// the user, elsewhere below the state directory where one is named and in its usual
/// place below the home directory where none is; nowhere without these.
pub proof fn law_diagnostics_are_kept_with_the_state(places: StatePlaces)
    ensures
        places.local_app_data ==> diagnostic_place(true, places) == Some(
            (
                StateVariable::LocalAppData,
                seq!["WebCodex"@, "diagnostics"@, "managed-process.log"@],
            ),
        ),
        !places.local_app_data ==> diagnostic_place(true, places) is None,
        places.state_home ==> diagnostic_place(false, places) == Some(
            (StateVariable::StateHome, seq!["webcodex"@, "diagnostics"@, "managed-process.log"@]),
        ),
        !places.state_home && places.home ==> diagnostic_place(false, places) == Some(
            (
                StateVariable::Home,
                seq![
                    ".local"@,
                    "state"@,
                    "webcodex"@,
                    "diagnostics"@,
                    "managed-process.log"@,
                ],
            ),
        ),
        !places.state_home && !places.home ==> diagnostic_place(false, places) is None,
        variable_name(StateVariable::LocalAppData) == "LOCALAPPDATA"@,
        variable_name(StateVariable::StateHome) == "XDG_STATE_HOME"@,
        variable_name(StateVariable::Home) == "HOME"@,
{
}

/// A diagnostic begins with a line that says when, of which process and what, and
/// then holds what was said of late, line by line in its order and set in.
pub proof fn law_diagnostic_says_what_came_before(
    timestamp_ms: u64,
    kind: Seq<char>,
    pid: u32,
    generation: u64,
    summary: Seq<char>,
    recent: Seq<Seq<char>>,
    i: int,
)
    ensures
        diagnostic_text(timestamp_ms, kind, pid, generation, summary, recent).len() == recent.len()
            + 1,
        diagnostic_text(timestamp_ms, kind, pid, generation, summary, recent)[0] == "["@
            + text::decimal(timestamp_ms as nat) + "] kind="@ + kind + " pid="@ + text::decimal(
            pid as nat,
        ) + " generation="@ + text::decimal(generation as nat) + " "@ + summary,
        0 <= i < recent.len() ==> diagnostic_text(
            timestamp_ms,
            kind,
            pid,
            generation,
            summary,
            recent,
        )[i + 1] == "  "@ + recent[i],
{
}

/// A file of diagnostics is begun anew where it has grown beyond two mebibytes, and
/// what is said of a failure names the file where there is one.
pub proof fn law_large_file_is_begun_anew(
    length: Option<u64>,
    anew: bool,
    summary: &str,
    path: Option<&str>,
    said: String,
)
    requires
        call_ensures(begins_anew, (length,), anew),
        call_ensures(with_diagnostic_file, (summary, path), said),
    ensures
        anew <==> (length matches Some(bytes) && bytes > 2097152),
        path is None ==> said@ == summary@,
        path matches Some(place) ==> said@ == summary@ + "; diagnostic_file="@ + place@,
{
}

} // verus!
