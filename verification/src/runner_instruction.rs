//! The request for a Runner's instruction files, and the rules that its response
//! has to meet.
use crate::git::is_lower_hex;
use crate::text;
use crate::text::{byte_count, has_char, lines, only_digits, same_text, split};
use vstd::prelude::*;
use vstd::string::*;

verus! {

pub const RUNNER_INSTRUCTION_REQUEST_KIND: &'static str = "runner_instruction";

/// A request takes at most this many bytes.
pub const RUNNER_INSTRUCTION_REQUEST_MAX_BYTES: usize = 128;

/// A response takes at most this many bytes.
pub const RUNNER_INSTRUCTION_RESPONSE_MAX_BYTES: usize = 196608;

/// A response holds at most this many files.
pub const RUNNER_INSTRUCTION_RESPONSE_MAX_FILES: usize = 16;

pub const RUNNER_INSTRUCTION_RESPONSE_FORMAT: &'static str =
    "webcodex.runner_instruction_snapshot.v1";

/// A file is shown up to this many lines.
pub const MAX_LINES_PER_FILE: usize = 400;

/// A file is shown up to this many characters. The number is this library's own
/// choice; both ends of the wire have to agree on it.
pub const MAX_TOTAL_CHARS: usize = 32768;

/// The last component of a logical source takes at most this many bytes.
pub const MAX_SOURCE_NAME_BYTES: usize = 255;

/// What a request asks for.
#[derive(Debug, Clone, Copy, PartialEq, Eq, Structural)]
pub enum RunnerInstructionAction {
    Snapshot,
}

/// A request for a Runner's instruction files.
#[derive(Debug, Clone, Copy, PartialEq, Eq, Structural)]
pub struct RunnerInstructionRequest {
    pub action: RunnerInstructionAction,
}

impl RunnerInstructionRequest {
    /// A request for a snapshot.
    pub fn snapshot() -> (request: RunnerInstructionRequest)
        ensures
            request.action == RunnerInstructionAction::Snapshot,
    {
        RunnerInstructionRequest { action: RunnerInstructionAction::Snapshot }
    }

    /// Whether the request can be answered: every one can.
    pub fn validate(&self) -> (result: Result<(), &'static str>)
        ensures
            result is Ok,
    {
        match self.action {
            RunnerInstructionAction::Snapshot => Ok(()),
        }
    }
}

/// Where an instruction file comes from.
#[derive(Debug, Clone, Copy, PartialEq, Eq, Structural)]
pub enum InstructionSourceScope {
    Runner,
    Project,
}

/// An instruction file, as it is shown.
#[derive(Debug)]
pub struct ProjectInstructionFile {
    pub source_scope: InstructionSourceScope,
    pub path: String,
    pub content: String,
    pub start_line: usize,
    pub limit: usize,
    pub chars: usize,
    pub total_lines: usize,
    pub truncated: bool,
    pub read_more: Option<String>,
    pub fingerprint: String,
}

/// The instruction files of a Runner.
#[derive(Debug)]
pub struct RunnerInstructionSnapshotResponse {
    pub format: String,
    pub generation: u64,
    pub scan_complete: bool,
    pub files: Vec<ProjectInstructionFile>,
}

/// Whether a text names an instruction file without naming a place on a disk: the
/// word `runner`, a number and a plain file name.
pub open spec fn logical_source(path: Seq<char>) -> bool {
    let parts = text::split_on(path, '/');
    &&& !path.contains('\\')
    &&& !path.contains('\0')
    &&& parts.len() == 3
    &&& parts[0] == "runner"@
    &&& parts[1].len() > 0
    &&& text::all_digits(parts[1])
    &&& parts[2].len() > 0
    &&& text::byte_len(parts[2]) <= MAX_SOURCE_NAME_BYTES
    &&& parts[2] != "."@
    &&& parts[2] != ".."@
}

/// Whether a text names an instruction file without naming a place on a disk.
pub fn valid_runner_logical_source(path: &str) -> (valid: bool)
    ensures
        valid == logical_source(path@),
{
    if has_char(path, '\\') || has_char(path, '\0') {
        return false;
    }
    let parts = split(path, '/');
    assert(text::texts(parts@).len() == parts@.len());
    if parts.len() != 3 {
        return false;
    }
    assert(text::texts(parts@)[0] == parts@[0]@ && text::texts(parts@)[1] == parts@[1]@
        && text::texts(parts@)[2] == parts@[2]@);
    let index = parts[1].as_str();
    let name = parts[2].as_str();
    same_text(parts[0].as_str(), "runner") && !index.is_empty() && only_digits(index)
        && !name.is_empty() && byte_count(name) <= MAX_SOURCE_NAME_BYTES && !same_text(name, ".")
        && !same_text(name, "..")
}

/// Whether a text is a SHA-256 digest in small hexadecimal digits.
pub open spec fn sha256_digest(value: Seq<char>) -> bool {
    value.len() == 64 && text::all_lower_hex(value)
}

/// Whether a text is a SHA-256 digest in small hexadecimal digits.
pub fn is_lower_hex_sha256(value: &str) -> (found: bool)
    ensures
        found == sha256_digest(value@),
{
    is_lower_hex(value, 64)
}

/// Whether the numbers of a file are those of its content and within their
/// bounds.
pub open spec fn bounded_metadata(file: ProjectInstructionFile) -> bool {
    &&& file.start_line == 1
    &&& file.limit == MAX_LINES_PER_FILE
    &&& file.chars == file.content@.len()
    &&& file.chars <= MAX_TOTAL_CHARS
    &&& file.total_lines >= text::lines_of(file.content@).len()
    &&& sha256_digest(file.fingerprint@)
}

/// Whether a file before the given one has the same source.
pub open spec fn repeated(files: Seq<ProjectInstructionFile>, i: int) -> bool {
    exists|j: int| 0 <= j < i && (#[trigger] files[j]).path@ == files[i].path@
}

/// What is wrong with the file at a place.
pub open spec fn file_fault(files: Seq<ProjectInstructionFile>, i: int) -> Option<Seq<char>> {
    let file = files[i];
    if file.source_scope != InstructionSourceScope::Runner {
        Some("Runner instruction response contains non-Runner source"@)
    } else if !logical_source(file.path@) || repeated(files, i) {
        Some("Runner instruction response contains invalid logical source"@)
    } else if file.read_more is Some {
        Some("Runner instruction response must not expose read_more"@)
    } else if !bounded_metadata(file) {
        Some("Runner instruction response contains invalid bounded source metadata"@)
    } else {
        None
    }
}

/// What is wrong with the first file at or behind a place with which something is.
pub open spec fn files_fault(files: Seq<ProjectInstructionFile>, from: int) -> Option<Seq<char>>
    decreases files.len() - from,
{
    if from >= files.len() || from < 0 {
        None
    } else if file_fault(files, from) is Some {
        file_fault(files, from)
    } else {
        files_fault(files, from + 1)
    }
}

/// What is wrong with a response.
pub open spec fn response_fault(response: RunnerInstructionSnapshotResponse) -> Option<Seq<char>> {
    if response.format@ != RUNNER_INSTRUCTION_RESPONSE_FORMAT@ {
        Some("unexpected instruction response format"@)
    } else if response.generation == 0 {
        Some("instruction config generation must be positive"@)
    } else if response.files@.len() > RUNNER_INSTRUCTION_RESPONSE_MAX_FILES {
        Some("Runner instruction response contains too many sources"@)
    } else {
        files_fault(response.files@, 0)
    }
}

fn is_repeated(files: &Vec<ProjectInstructionFile>, i: usize) -> (found: bool)
    requires
        i < files@.len(),
    ensures
        found == repeated(files@, i as int),
{
    let mut j: usize = 0;
    while j < i
        invariant
            j <= i < files@.len(),
            forall|k: int| 0 <= k < j ==> (#[trigger] files@[k]).path@ != files@[i as int].path@,
        decreases i - j,
    {
        if same_text(files[j].path.as_str(), files[i].path.as_str()) {
            return true;
        }
        j = j + 1;
    }
    false
}

fn has_bounded_metadata(file: &ProjectInstructionFile) -> (bounded: bool)
    ensures
        bounded == bounded_metadata(*file),
{
    let count = file.content.as_str().unicode_len();
    let shown = lines(file.content.as_str());
    assert(text::texts(shown@).len() == shown@.len());
    file.start_line == 1 && file.limit == MAX_LINES_PER_FILE && file.chars == count && file.chars
        <= MAX_TOTAL_CHARS && file.total_lines >= shown.len() && is_lower_hex_sha256(
        file.fingerprint.as_str(),
    )
}

impl RunnerInstructionSnapshotResponse {
    /// Whether the response meets the rules; else the first that it breaks.
    pub fn validate(&self) -> (result: Result<(), &'static str>)
        ensures
            match result {
                Ok(_) => response_fault(*self) is None,
                Err(fault) => response_fault(*self) == Some(fault@),
            },
    {
        if !same_text(self.format.as_str(), RUNNER_INSTRUCTION_RESPONSE_FORMAT) {
            return Err("unexpected instruction response format");
        }
        if self.generation == 0 {
            return Err("instruction config generation must be positive");
        }
        if self.files.len() > RUNNER_INSTRUCTION_RESPONSE_MAX_FILES {
            return Err("Runner instruction response contains too many sources");
        }
        let mut i: usize = 0;
        while i < self.files.len()
            invariant
                i <= self.files@.len(),
                response_fault(*self) == files_fault(self.files@, i as int),
            decreases self.files@.len() - i,
        {
            let file = &self.files[i];
            match file.source_scope {
                InstructionSourceScope::Runner => {},
                _ => {
                    return Err("Runner instruction response contains non-Runner source");
                },
            }
            if !valid_runner_logical_source(file.path.as_str()) || is_repeated(&self.files, i) {
                return Err("Runner instruction response contains invalid logical source");
            }
            if file.read_more.is_some() {
                return Err("Runner instruction response must not expose read_more");
            }
            if !has_bounded_metadata(file) {
                return Err("Runner instruction response contains invalid bounded source metadata");
            }
            i = i + 1;
        }
        Ok(())
    }
}

/// What a caller gets of a reply that claims to hold a Runner's files: the files
/// and whether they are all, where the reply is sound; else nothing, as not all.
/// The fingerprints of the files are handed on as they were received.
pub fn accept_snapshot(parsed: Option<RunnerInstructionSnapshotResponse>) -> (result: (
    Vec<ProjectInstructionFile>,
    bool,
))
    ensures
        match parsed {
            Some(response) => if response_fault(response) is None {
                result.0 == response.files && result.1 == response.scan_complete
            } else {
                result.0@.len() == 0 && !result.1
            },
            None => result.0@.len() == 0 && !result.1,
        },
{
    match parsed {
        Some(response) => if response.validate().is_ok() {
            (response.files, response.scan_complete)
        } else {
            (Vec::new(), false)
        },
        None => (Vec::new(), false),
    }
}

/// What a Runner's reply to a request holds, where it is one that succeeded and is
/// not too large.
pub fn reply_text<'a>(
    has_error: bool,
    exit_code: Option<i32>,
    stdout: Option<&'a str>,
) -> (held: Option<&'a str>)
    ensures
        text::str_of(held) == if !has_error && exit_code == Some(0i32) && (stdout matches Some(
            shown,
        ) && text::byte_len(shown@) <= RUNNER_INSTRUCTION_RESPONSE_MAX_BYTES) {
            text::str_of(stdout)
        } else {
            None
        },
{
    if has_error {
        return None;
    }
    match exit_code {
        Some(0) => {},
        _ => {
            return None;
        },
    }
    match stdout {
        Some(shown) => if byte_count(shown) <= RUNNER_INSTRUCTION_RESPONSE_MAX_BYTES {
            Some(shown)
        } else {
            None
        },
        None => None,
    }
}

/// What is known of a Runner that might have instruction files.
#[derive(Debug)]
pub struct RunnerView {
    pub supports_instructions: bool,
    pub runner_instance_id: String,
}

/// How a Runner's instruction files are come by.
#[derive(Debug)]
pub enum InstructionPlan {
    /// Ask this process of the Runner.
    Ask(String),
    /// There are none, and that is certain or not.
    Nothing { complete: bool },
}

/// How a Runner's instruction files are come by. A Runner that knows of no
/// instruction files certainly has none; one that cannot be seen or addressed may
/// have some.
pub fn plan_instructions(runner: Option<RunnerView>) -> (plan: InstructionPlan)
    ensures
        plan == match runner {
            None => InstructionPlan::Nothing { complete: false },
            Some(runner) => if !runner.supports_instructions {
                InstructionPlan::Nothing { complete: true }
            } else if runner.runner_instance_id@.len() == 0 {
                InstructionPlan::Nothing { complete: false }
            } else {
                InstructionPlan::Ask(runner.runner_instance_id)
            },
        },
{
    match runner {
        None => InstructionPlan::Nothing { complete: false },
        Some(runner) => if !runner.supports_instructions {
            InstructionPlan::Nothing { complete: true }
        } else if runner.runner_instance_id.as_str().is_empty() {
            InstructionPlan::Nothing { complete: false }
        } else {
            InstructionPlan::Ask(runner.runner_instance_id)
        },
    }
}

/// Whether a project belongs to a Runner, whose files then count for it.
pub fn belongs_to_runner(resolved_id: &str) -> (found: bool)
    ensures
        found == text::begins_with(resolved_id@, "agent:"@),
{
    text::has_prefix(resolved_id, "agent:")
}

// ---- Laws ---------------------------------------------------------------------------------

/// A sound response holds only files of the Runner, each under its own logical
/// name, and says nothing of where they lie.
pub proof fn law_sound_response_names_no_place(
    response: RunnerInstructionSnapshotResponse,
    i: int,
    j: int,
)
    requires
        response_fault(response) is None,
        0 <= i <= j < response.files@.len(),
    ensures
        logical_source(response.files@[i].path@),
        i < j ==> response.files@[i].path@ != response.files@[j].path@,
        response.files@[i].read_more is None,
        bounded_metadata(response.files@[i]),
        response.files@.len() <= RUNNER_INSTRUCTION_RESPONSE_MAX_FILES,
{
    lemma_no_fault(response.files@, 0, i);
    lemma_no_fault(response.files@, 0, j);
    assert(!repeated(response.files@, j));
}

proof fn lemma_no_fault(files: Seq<ProjectInstructionFile>, from: int, i: int)
    requires
        0 <= from <= i < files.len(),
        files_fault(files, from) is None,
    ensures
        file_fault(files, i) is None,
    decreases i - from,
{
    if from < i {
        lemma_no_fault(files, from + 1, i);
    }
}

/// A list of files none of which has a fault has none.
pub proof fn lemma_faultless(files: Seq<ProjectInstructionFile>, from: int)
    requires
        0 <= from <= files.len(),
        forall|i: int| from <= i < files.len() ==> #[trigger] file_fault(files, i) is None,
    ensures
        files_fault(files, from) is None,
    decreases files.len() - from,
{
    if from < files.len() {
        assert(file_fault(files, from) is None);
        lemma_faultless(files, from + 1);
    }
}

/// A logical source has no component that leads elsewhere.
pub proof fn law_logical_source_is_no_path(path: Seq<char>)
    requires
        logical_source(path),
    ensures
        !path.contains('\\'),
        text::split_on(path, '/').len() == 3,
        forall|i: int|
            0 <= i < 3 ==> (#[trigger] text::split_on(path, '/')[i]) != ".."@
                && text::split_on(path, '/')[i].len() > 0,
{
    reveal_strlit("runner");
    reveal_strlit("..");
    let index = text::split_on(path, '/')[1];
    assert(index != ".."@) by {
        if index == ".."@ {
            assert(index[0] == '.');
            assert(text::is_digit(index[0]));
        }
    }
    assert("runner"@.len() == 6 && ".."@.len() == 2);
}

/// A logical source is the word for runners, a number and a name, with slashes
/// between them: any number, and any name that is not too long, holds neither a
/// slash, a backslash nor a null character, and does not stand for a directory.
pub proof fn law_logical_source_is_number_and_name(digits: Seq<char>, name: Seq<char>)
    requires
        !name.contains('/'),
        digits.len() > 0 && text::all_digits(digits),
    ensures
        logical_source("runner"@.push('/') + (digits.push('/') + name)) <==> name.len() > 0
            && text::byte_len(name) <= 255 && name != "."@ && name != ".."@ && !name.contains(
            '\\',
        ) && !name.contains('\0'),
{
    reveal_strlit("runner");
    let path = "runner"@.push('/') + (digits.push('/') + name);
    assert("runner"@.len() == 6);
    assert(!"runner"@.contains('/'));
    assert forall|i: int| 0 <= i < digits.len() implies digits[i] != '/' && digits[i] != '\\'
        && digits[i] != '\0' by {
        assert(text::is_digit(digits[i]));
    }
    assert(!digits.contains('/'));
    text::law_split_goes_piece_by_piece("runner"@, '/', digits.push('/') + name);
    text::law_split_goes_piece_by_piece(digits, '/', name);
    text::law_split_goes_piece_by_piece(name, '/', Seq::empty());
    assert(text::split_on(path, '/') =~= seq!["runner"@, digits, name]);
    let at = 7 + digits.len() + 1;
    assert forall|ch: char| ch == '\\' || ch == '\0' implies (#[trigger] path.contains(ch)
        <==> name.contains(ch)) by {
        if name.contains(ch) {
            let i = choose|i: int| 0 <= i < name.len() && name[i] == ch;
            assert(path[at + i] == ch);
        }
        if path.contains(ch) {
            let i = choose|i: int| 0 <= i < path.len() && path[i] == ch;
            if i < 6 {
                assert(path[i] == "runner"@[i]);
            } else if 7 <= i < at - 1 {
                assert(path[i] == digits[i - 7]);
            } else if i >= at {
                assert(path[i] == name[i - at]);
            }
        }
    }
    assert(path.contains('\\') <==> name.contains('\\'));
    assert(path.contains('\0') <==> name.contains('\0'));
}

/// A source of another first word, or of more or fewer parts, is none.
pub proof fn law_other_sources_are_none(path: Seq<char>)
    requires
        !path.contains('/') || text::split_on(path, '/').len() != 3 || text::split_on(path, '/')[0]
            != "runner"@,
    ensures
        !logical_source(path),
{
    if !path.contains('/') {
        text::law_split_goes_piece_by_piece(path, '/', Seq::empty());
    }
}

/// A file of a response is in order where it comes from the runner, under a logical
/// source that no file before it has, cannot be read further, begins at its first
/// line, is bounded as such files are, counts its own characters, has at least the
/// lines it shows, and carries a digest.
pub proof fn law_file_is_in_order(files: Seq<ProjectInstructionFile>, i: int)
    requires
        0 <= i < files.len(),
    ensures
        file_fault(files, i) is None <==> {
            let file = files[i];
            &&& file.source_scope == InstructionSourceScope::Runner
            &&& logical_source(file.path@)
            &&& forall|j: int| 0 <= j < i ==> (#[trigger] files[j]).path@ != file.path@
            &&& file.read_more is None
            &&& file.start_line == 1
            &&& file.limit == 400
            &&& file.chars == file.content@.len()
            &&& file.content@.len() <= 32768
            &&& file.total_lines >= text::lines_of(file.content@).len()
            &&& file.fingerprint@.len() == 64 && text::all_lower_hex(file.fingerprint@)
        },
        files[i].source_scope != InstructionSourceScope::Runner ==> file_fault(files, i) == Some(
            "Runner instruction response contains non-Runner source"@,
        ),
        files[i].source_scope == InstructionSourceScope::Runner && !logical_source(files[i].path@)
            ==> file_fault(files, i) == Some(
            "Runner instruction response contains invalid logical source"@,
        ),
        files[i].source_scope == InstructionSourceScope::Runner && logical_source(files[i].path@)
            && (forall|j: int| 0 <= j < i ==> (#[trigger] files[j]).path@ != files[i].path@)
            && files[i].read_more is Some ==> file_fault(files, i) == Some(
            "Runner instruction response must not expose read_more"@,
        ),
{
    if exists|j: int| 0 <= j < i && (#[trigger] files[j]).path@ == files[i].path@ {
        assert(repeated(files, i));
    }
    if repeated(files, i) {
        let j = choose|j: int| 0 <= j < i && (#[trigger] files[j]).path@ == files[i].path@;
        assert(files[j].path@ == files[i].path@);
    }
}

/// A response is refused for its first fault: its format, its generation, the number
/// of its files, and then its files in their order; and it is accepted where there
/// is none.
pub proof fn law_response_is_refused_for_its_first_fault(
    response: RunnerInstructionSnapshotResponse,
    i: int,
)
    ensures
        response.format@ != RUNNER_INSTRUCTION_RESPONSE_FORMAT@ ==> response_fault(response)
            == Some("unexpected instruction response format"@),
        response.format@ == RUNNER_INSTRUCTION_RESPONSE_FORMAT@ && response.generation == 0
            ==> response_fault(response) == Some("instruction config generation must be positive"@),
        response.format@ == RUNNER_INSTRUCTION_RESPONSE_FORMAT@ && response.generation > 0
            && response.files@.len() > 16 ==> response_fault(response) == Some(
            "Runner instruction response contains too many sources"@,
        ),
        response.format@ == RUNNER_INSTRUCTION_RESPONSE_FORMAT@ && response.generation > 0
            && response.files@.len() <= 16 && 0 <= i < response.files@.len() && file_fault(
            response.files@,
            i,
        ) is Some && (forall|j: int|
            0 <= j < i ==> #[trigger] file_fault(response.files@, j) is None) ==> response_fault(
            response,
        ) == file_fault(response.files@, i),
        response.format@ == RUNNER_INSTRUCTION_RESPONSE_FORMAT@ && response.generation > 0
            && response.files@.len() <= 16 && (forall|j: int|
            0 <= j < response.files@.len() ==> #[trigger] file_fault(response.files@, j) is None)
            ==> response_fault(response) is None,
{
    let files = response.files@;
    if 0 <= i < files.len() && file_fault(files, i) is Some && (forall|j: int|
        0 <= j < i ==> #[trigger] file_fault(files, j) is None) {
        lemma_first_fault(files, 0, i);
    }
    if forall|j: int| 0 <= j < files.len() ==> #[trigger] file_fault(files, j) is None {
        lemma_no_faults(files, 0);
    }
}

proof fn lemma_first_fault(files: Seq<ProjectInstructionFile>, from: int, i: int)
    requires
        0 <= from <= i < files.len(),
        file_fault(files, i) is Some,
        forall|j: int| 0 <= j < i ==> #[trigger] file_fault(files, j) is None,
    ensures
        files_fault(files, from) == file_fault(files, i),
    decreases i - from,
{
    if from < i {
        assert(file_fault(files, from) is None);
        lemma_first_fault(files, from + 1, i);
    }
}

proof fn lemma_no_faults(files: Seq<ProjectInstructionFile>, from: int)
    requires
        0 <= from <= files.len(),
        forall|j: int| 0 <= j < files.len() ==> #[trigger] file_fault(files, j) is None,
    ensures
        files_fault(files, from) is None,
    decreases files.len() - from,
{
    if from < files.len() {
        assert(file_fault(files, from) is None);
        lemma_no_faults(files, from + 1);
    }
}

/// How the files of a runner are come by: a runner that knows of none certainly has
/// none; one that is not there, or has no process to ask, may have some; and any
/// other is asked, by its own process.
pub proof fn law_runner_is_asked_where_it_can_be(
    runner: Option<RunnerView>,
    plan: InstructionPlan,
)
    requires
        call_ensures(plan_instructions, (runner,), plan),
    ensures
        runner is None ==> plan == (InstructionPlan::Nothing { complete: false }),
        runner matches Some(held) ==> {
            &&& !held.supports_instructions ==> plan == (InstructionPlan::Nothing {
                complete: true,
            })
            &&& held.supports_instructions && held.runner_instance_id@.len() == 0 ==> plan == (
            InstructionPlan::Nothing { complete: false })
            &&& held.supports_instructions && held.runner_instance_id@.len() > 0 ==> (
            plan matches InstructionPlan::Ask(id) && id@ == held.runner_instance_id@)
        },
{
}

/// A reply is read only where it succeeded, without an error, and is not too large;
/// and then all of it is.
pub proof fn law_only_a_sound_reply_is_read(
    has_error: bool,
    exit_code: Option<i32>,
    stdout: Option<&str>,
    held: Option<&str>,
)
    requires
        call_ensures(reply_text, (has_error, exit_code, stdout), held),
    ensures
        has_error || exit_code != Some(0i32) || stdout is None ==> held is None,
        stdout matches Some(shown) ==> {
            &&& text::byte_len(shown@) > 196608 ==> held is None
            &&& !has_error && exit_code == Some(0i32) && text::byte_len(shown@) <= 196608 ==> (
            held matches Some(read) && read@ == shown@)
        },
{
}

/// The files of a response are taken where it is sound, all of them and as complete
/// as it says; of an unsound one, or none, nothing is taken, and that is not
/// complete.
pub proof fn law_unsound_response_gives_nothing(
    parsed: Option<RunnerInstructionSnapshotResponse>,
    result: (Vec<ProjectInstructionFile>, bool),
)
    requires
        call_ensures(accept_snapshot, (parsed,), result),
    ensures
        parsed is None ==> result.0@.len() == 0 && !result.1,
        parsed matches Some(response) ==> {
            &&& response_fault(response) is Some ==> result.0@.len() == 0 && !result.1
            &&& response_fault(response) is None ==> result.0@ == response.files@ && result.1
                == response.scan_complete
        },
{
}

/// A project belongs to a runner where its name begins as those of runners do.
pub proof fn law_runner_projects_are_told_by_their_name(resolved_id: &str, found: bool)
    requires
        call_ensures(belongs_to_runner, (resolved_id,), found),
    ensures
        found <==> exists|rest: Seq<char>| #![trigger "agent:"@ + rest]
            resolved_id@ == "agent:"@ + rest,
{
    if found {
        text::law_prefix_and_suffix(resolved_id@, "agent:"@, resolved_id@);
        let rest = resolved_id@.skip("agent:"@.len() as int);
        assert(resolved_id@ == "agent:"@ + rest);
    }
    if exists|rest: Seq<char>| #![trigger "agent:"@ + rest] resolved_id@ == "agent:"@ + rest {
        let rest = choose|rest: Seq<char>| #![trigger "agent:"@ + rest]
            resolved_id@ == "agent:"@ + rest;
        text::law_prefix_and_suffix(resolved_id@, "agent:"@, rest);
    }
}

} // verus!
