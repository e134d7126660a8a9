//! What the activity of the Desktop says of the processes it owns.
use vstd::prelude::*;

use crate::text;
use crate::text::{decimal_text, joined};

verus! {

/// What an entry is about.
#[derive(Debug, Clone, Copy, PartialEq, Eq, Structural)]
pub enum ActivityEventKind {
    ProcessStarted,
    ProcessExited,
    ProcessObservationFailed,
    ProcessStopping,
    ProcessStopped,
}

/// How much an entry matters.
#[derive(Debug, Clone, Copy, PartialEq, Eq, Structural)]
pub enum ActivityLevel {
    Info,
    Error,
}

/// An entry of the activity.
#[derive(Debug)]
pub struct Activity {
    pub kind: ActivityEventKind,
    pub level: ActivityLevel,
    pub message: String,
}

/// Whether an entry says this.
pub open spec fn says(
    activity: Activity,
    kind: ActivityEventKind,
    level: ActivityLevel,
    message: Seq<char>,
) -> bool {
    activity.kind == kind && activity.level == level && activity.message@ == message
}

/// A process was started.
pub fn started(pid: u32) -> (activity: Activity)
    ensures
        says(
            activity,
            ActivityEventKind::ProcessStarted,
            ActivityLevel::Info,
            "Desktop started the process (PID "@ + text::decimal(pid as nat) + ")"@,
        ),
{
    let message = joined("Desktop started the process (PID ", decimal_text(pid as u64).as_str());
    Activity {
        kind: ActivityEventKind::ProcessStarted,
        level: ActivityLevel::Info,
        message: joined(message.as_str(), ")"),
    }
}

/// A process ended by itself; only an end without success is an error.
pub fn exited(success: bool, status: &str) -> (activity: Activity)
    ensures
        says(
            activity,
            ActivityEventKind::ProcessExited,
            if success {
                ActivityLevel::Info
            } else {
                ActivityLevel::Error
            },
            "Desktop-owned process exited with status "@ + status@,
        ),
{
    Activity {
        kind: ActivityEventKind::ProcessExited,
        level: if success {
            ActivityLevel::Info
        } else {
            ActivityLevel::Error
        },
        message: joined("Desktop-owned process exited with status ", status),
    }
}

/// A failure of the operating system, as it is shown: its kind, its number where
/// it has one, and its text.
#[derive(Debug)]
pub struct ShownError {
    pub kind: String,
    pub raw_os_error: String,
    pub error: String,
}

/// What is known of the tree of a process's descendants, as it is shown.
#[derive(Debug)]
pub enum ShownTree {
    Empty,
    Active,
    Unavailable(ShownError),
}

/// What is known of a tree, in words.
pub open spec fn tree_words(tree: ShownTree) -> Seq<char> {
    match tree {
        ShownTree::Empty => "empty"@,
        ShownTree::Active => "active"@,
        ShownTree::Unavailable(error) => "unavailable(kind="@ + error.kind@ + ", raw_os_error="@
            + error.raw_os_error@ + ", error="@ + error.error@ + ")"@,
    }
}

fn tree_text(tree: &ShownTree) -> (words: String)
    ensures
        words@ == tree_words(*tree),
{
    match tree {
        ShownTree::Empty => "empty".to_owned(),
        ShownTree::Active => "active".to_owned(),
        ShownTree::Unavailable(error) => {
            let words = joined("unavailable(kind=", error.kind.as_str());
            let words = joined(joined(words.as_str(), ", raw_os_error=").as_str(), error.raw_os_error.as_str());
            let words = joined(joined(words.as_str(), ", error=").as_str(), error.error.as_str());
            joined(words.as_str(), ")")
        },
    }
}

/// What is said of a process that could not be observed.
pub open spec fn observation_words(
    key: Seq<char>,
    pid: u32,
    generation: u64,
    error: ShownError,
    tree: ShownTree,
) -> Seq<char> {
    "Desktop could not observe the child process state: kind="@ + key + ", pid="@ + text::decimal(
        pid as nat,
    ) + ", generation="@ + text::decimal(generation as nat) + ", io_kind="@ + error.kind@
        + ", raw_os_error="@ + error.raw_os_error@ + ", error="@ + error.error@ + ", job_tree="@
        + tree_words(tree)
}

/// What is said of a process that could not be observed. `key` names the process.
pub fn observation_summary(
    key: &str,
    pid: u32,
    generation: u64,
    error: &ShownError,
    tree: &ShownTree,
) -> (summary: String)
    ensures
        summary@ == observation_words(key@, pid, generation, *error, *tree),
{
    let said = joined("Desktop could not observe the child process state: kind=", key);
    let said = joined(joined(said.as_str(), ", pid=").as_str(), decimal_text(pid as u64).as_str());
    let said = joined(
        joined(said.as_str(), ", generation=").as_str(),
        decimal_text(generation).as_str(),
    );
    let said = joined(joined(said.as_str(), ", io_kind=").as_str(), error.kind.as_str());
    let said = joined(
        joined(said.as_str(), ", raw_os_error=").as_str(),
        error.raw_os_error.as_str(),
    );
    let said = joined(joined(said.as_str(), ", error=").as_str(), error.error.as_str());
    joined(joined(said.as_str(), ", job_tree=").as_str(), tree_text(tree).as_str())
}

/// A process could not be observed: a line that says so, then its last lines.
pub fn observation_failed(summary: &str, recent: &Vec<String>) -> (entries: Vec<Activity>)
    ensures
        entries@.len() == recent@.len() + 1,
        says(
            entries@[0],
            ActivityEventKind::ProcessObservationFailed,
            ActivityLevel::Error,
            summary@,
        ),
        forall|i: int|
            0 <= i < recent@.len() ==> says(
                #[trigger] entries@[i + 1],
                ActivityEventKind::ProcessObservationFailed,
                ActivityLevel::Error,
                "Recent managed-process diagnostic: "@ + recent@[i]@,
            ),
{
    let mut entries: Vec<Activity> = Vec::new();
    entries.push(
        Activity {
            kind: ActivityEventKind::ProcessObservationFailed,
            level: ActivityLevel::Error,
            message: summary.to_owned(),
        },
    );
    let mut i: usize = 0;
    while i < recent.len()
        invariant
            i <= recent@.len(),
            entries@.len() == i + 1,
            says(
                entries@[0],
                ActivityEventKind::ProcessObservationFailed,
                ActivityLevel::Error,
                summary@,
            ),
            forall|j: int|
                0 <= j < i ==> says(
                    #[trigger] entries@[j + 1],
                    ActivityEventKind::ProcessObservationFailed,
                    ActivityLevel::Error,
                    "Recent managed-process diagnostic: "@ + recent@[j]@,
                ),
        decreases recent@.len() - i,
    {
        let ghost before = entries@;
        entries.push(
            Activity {
                kind: ActivityEventKind::ProcessObservationFailed,
                level: ActivityLevel::Error,
                message: joined("Recent managed-process diagnostic: ", recent[i].as_str()),
            },
        );
        assert forall|j: int| 0 <= j < i + 1 implies says(
            #[trigger] entries@[j + 1],
            ActivityEventKind::ProcessObservationFailed,
            ActivityLevel::Error,
            "Recent managed-process diagnostic: "@ + recent@[j]@,
        ) by {
            if j < i {
                assert(entries@[j + 1] == before[j + 1]);
            }
        }
        i = i + 1;
    }
    entries
}

/// A process is being stopped.
pub fn stopping() -> (activity: Activity)
    ensures
        says(
            activity,
            ActivityEventKind::ProcessStopping,
            ActivityLevel::Info,
            "Stopping the Desktop-owned process"@,
        ),
{
    Activity {
        kind: ActivityEventKind::ProcessStopping,
        level: ActivityLevel::Info,
        message: "Stopping the Desktop-owned process".to_owned(),
    }
}

/// How stopping a process went: it is gone, or it is kept for another try.
pub fn stop_ended(confirmed: bool) -> (activity: Activity)
    ensures
        if confirmed {
            says(
                activity,
                ActivityEventKind::ProcessStopped,
                ActivityLevel::Info,
                "Desktop-owned process stopped"@,
            )
        } else {
            says(
                activity,
                ActivityEventKind::ProcessObservationFailed,
                ActivityLevel::Error,
                "Process cleanup is unconfirmed; Desktop retained ownership for retry"@,
            )
        },
{
    if confirmed {
        Activity {
            kind: ActivityEventKind::ProcessStopped,
            level: ActivityLevel::Info,
            message: "Desktop-owned process stopped".to_owned(),
        }
    } else {
        Activity {
            kind: ActivityEventKind::ProcessObservationFailed,
            level: ActivityLevel::Error,
            message: "Process cleanup is unconfirmed; Desktop retained ownership for retry".to_owned(),
        }
    }
}

/// What is said of a tree: that it is empty or active, or why it could not be seen.
pub proof fn law_tree_is_said_as_seen(tree: ShownTree)
    ensures
        tree is Empty ==> tree_words(tree) == "empty"@,
        tree is Active ==> tree_words(tree) == "active"@,
        tree matches ShownTree::Unavailable(error) ==> tree_words(tree) == "unavailable(kind="@
            + error.kind@ + ", raw_os_error="@ + error.raw_os_error@ + ", error="@ + error.error@
            + ")"@,
{
}

/// What is said of a process that could not be observed ends with what is known of
/// its tree, and begins with which process it is: processes of different kinds are
/// told apart from the first word on.
pub proof fn law_observation_failure_says_which_process(
    key: Seq<char>,
    pid: u32,
    generation: u64,
    error: ShownError,
    tree: ShownTree,
)
    ensures
        ({
            let said = observation_words(key, pid, generation, error, tree);
            &&& crate::text::begins_with(
                said,
                "Desktop could not observe the child process state: kind="@ + key + ", pid="@
                    + crate::text::decimal(pid as nat) + ", generation="@ + crate::text::decimal(
                    generation as nat,
                ),
            )
            &&& crate::text::finishes_with(
                said,
                ", io_kind="@ + error.kind@ + ", raw_os_error="@ + error.raw_os_error@ + ", error="@
                    + error.error@ + ", job_tree="@ + tree_words(tree),
            )
        }),
{
    let front = "Desktop could not observe the child process state: kind="@ + key + ", pid="@
        + crate::text::decimal(pid as nat) + ", generation="@ + crate::text::decimal(
        generation as nat,
    );
    let back = ", io_kind="@ + error.kind@ + ", raw_os_error="@ + error.raw_os_error@ + ", error="@
        + error.error@ + ", job_tree="@ + tree_words(tree);
    let said = observation_words(key, pid, generation, error, tree);
    assert(said =~= front + back);
    crate::text::law_prefix_and_suffix(said, front, back);
    crate::text::law_prefix_and_suffix(said, back, front);
}

/// What is entered of a process: that it was started, with its number; how it
/// exited, as an error where that was not well; that it is being stopped; and that
/// it was, or that this could not be confirmed, which is an error.
pub proof fn law_activity_tells_what_became_of_a_process(
    pid: u32,
    begun: Activity,
    success: bool,
    status: &str,
    ended: Activity,
    asked: Activity,
    confirmed: bool,
    stopped: Activity,
)
    requires
        call_ensures(started, (pid,), begun),
        call_ensures(exited, (success, status), ended),
        call_ensures(stopping, (), asked),
        call_ensures(stop_ended, (confirmed,), stopped),
    ensures
        begun.kind == ActivityEventKind::ProcessStarted && begun.level == ActivityLevel::Info,
        begun.message@ == "Desktop started the process (PID "@ + text::decimal(pid as nat) + ")"@,
        ended.kind == ActivityEventKind::ProcessExited,
        success <==> ended.level == ActivityLevel::Info,
        text::finishes_with(ended.message@, status@),
        asked.kind == ActivityEventKind::ProcessStopping && asked.level == ActivityLevel::Info,
        confirmed ==> stopped.kind == ActivityEventKind::ProcessStopped && stopped.level
            == ActivityLevel::Info,
        !confirmed ==> stopped.kind == ActivityEventKind::ProcessObservationFailed && stopped.level
            == ActivityLevel::Error,
{
    text::law_prefix_and_suffix(
        status@,
        status@,
        "Desktop-owned process exited with status "@,
    );
}

/// A process that could not be observed is entered with what is known of it first,
/// and then with what was said of late, in its order, all of it as errors.
pub proof fn law_failed_observation_is_entered_with_its_history(
    summary: &str,
    recent: Vec<String>,
    entries: Vec<Activity>,
    i: int,
)
    requires
        call_ensures(observation_failed, (summary, &recent), entries),
        0 <= i < recent@.len(),
    ensures
        entries@.len() == recent@.len() + 1,
        entries@[0].message@ == summary@,
        entries@[0].kind == ActivityEventKind::ProcessObservationFailed && entries@[0].level
            == ActivityLevel::Error,
        entries@[i + 1].message@ == "Recent managed-process diagnostic: "@ + recent@[i]@,
        entries@[i + 1].kind == ActivityEventKind::ProcessObservationFailed && entries@[i + 1].level
            == ActivityLevel::Error,
{
}

} // verus!
