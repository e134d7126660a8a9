//! Reading the instruction files that a Runner is configured with: what the disk
//! shows of each, and the response that is made of them.
use crate::command;
use crate::command::CommandResult;
use crate::digest;
use crate::digest::sha256_hex;
use crate::git::utf8_text;
use crate::runner_instruction;
use crate::runner_instruction::{
    InstructionSourceScope, ProjectInstructionFile, RunnerInstructionSnapshotResponse,
    MAX_LINES_PER_FILE, MAX_TOTAL_CHARS, RUNNER_INSTRUCTION_RESPONSE_FORMAT,
    RUNNER_INSTRUCTION_RESPONSE_MAX_BYTES,
};
use crate::text;
use crate::text::{byte_count, chars_of, decimal_text, lines, same_text, text_from_chars};
use vstd::prelude::*;
use vstd::string::*;
use vstd::utf8::*;

verus! {

/// A configured file takes at most this many bytes.
pub const MAX_CONFIGURED_INSTRUCTION_FILE_BYTES: u64 = 1048576;

/// So many bytes are read of a file: enough to see that it is too large.
pub const INSTRUCTION_READ_LIMIT: u64 = 1048577;

// ---- Opening ---------------------------------------------------------------------------

/// What the disk shows of a component of a path.
#[derive(Debug, Clone, Copy, PartialEq, Eq, Structural)]
pub enum ComponentState {
    Present { link_like: bool, is_file: bool, is_dir: bool },
    Missing,
    Unreadable,
}

/// What came of opening a configured file.
#[derive(Debug, Clone, Copy, PartialEq, Eq, Structural)]
pub enum OpenOutcome {
    Opened,
    /// The file itself is gone, and that is certain.
    Missing,
    /// The file could not be looked at.
    Unavailable,
}

/// What a component of a path says of the file: nothing where it is as it should
/// be. Only the file itself can be found missing; a missing directory may only be
/// out of reach.
pub open spec fn component_says(state: ComponentState, is_leaf: bool) -> Option<OpenOutcome> {
    match state {
        ComponentState::Missing => Some(
            if is_leaf {
                OpenOutcome::Missing
            } else {
                OpenOutcome::Unavailable
            },
        ),
        ComponentState::Unreadable => Some(OpenOutcome::Unavailable),
        ComponentState::Present { link_like, is_file, is_dir } => if link_like || (is_leaf
            && !is_file) || (!is_leaf && !is_dir) {
            Some(OpenOutcome::Unavailable)
        } else {
            None
        },
    }
}

/// What the components of a path say of its file, the root first and the file
/// itself last.
pub open spec fn path_says(components: Seq<ComponentState>) -> Option<OpenOutcome>
    decreases components.len(),
{
    if components.len() == 0 {
        None
    } else {
        match component_says(components[0], components.len() == 1) {
            Some(outcome) => Some(outcome),
            None => path_says(components.drop_first()),
        }
    }
}

/// What a component of a path says of the file.
fn component_verdict(state: ComponentState, is_leaf: bool) -> (outcome: Option<OpenOutcome>)
    ensures
        outcome == component_says(state, is_leaf),
{
    match state {
        ComponentState::Missing => if is_leaf {
            Some(OpenOutcome::Missing)
        } else {
            Some(OpenOutcome::Unavailable)
        },
        ComponentState::Unreadable => Some(OpenOutcome::Unavailable),
        ComponentState::Present { link_like, is_file, is_dir } => if link_like || (is_leaf
            && !is_file) || (!is_leaf && !is_dir) {
            Some(OpenOutcome::Unavailable)
        } else {
            None
        },
    }
}

/// What the components of a path say of its file: nothing where it may be opened.
pub fn path_verdict(components: &Vec<ComponentState>) -> (outcome: Option<OpenOutcome>)
    ensures
        outcome == path_says(components@),
{
    let mut i: usize = 0;
    assert(components@.skip(0) =~= components@);
    while i < components.len()
        invariant
            i <= components@.len(),
            path_says(components@) == path_says(components@.skip(i as int)),
        decreases components@.len() - i,
    {
        let is_leaf = i == components.len() - 1;
        match component_verdict(components[i], is_leaf) {
            Some(outcome) => {
                return Some(outcome);
            },
            None => {},
        }
        assert(components@.skip(i as int).drop_first() =~= components@.skip(i + 1));
        i = i + 1;
    }
    None
}

/// What opening the file showed: its state through the open handle, or whether it
/// was missing.
#[derive(Debug, Clone, Copy, PartialEq, Eq, Structural)]
pub enum HandleState {
    Open { link_like: bool, is_file: bool },
    Missing,
    Failed,
}

/// What came of opening a configured file whose path had nothing against it.
pub fn open_instruction_file(handle: HandleState) -> (outcome: OpenOutcome)
    ensures
        outcome == match handle {
            HandleState::Open { link_like, is_file } => if is_file && !link_like {
                OpenOutcome::Opened
            } else {
                OpenOutcome::Unavailable
            },
            HandleState::Missing => OpenOutcome::Missing,
            HandleState::Failed => OpenOutcome::Unavailable,
        },
{
    match handle {
        HandleState::Open { link_like, is_file } => if is_file && !link_like {
            OpenOutcome::Opened
        } else {
            OpenOutcome::Unavailable
        },
        HandleState::Missing => OpenOutcome::Missing,
        HandleState::Failed => OpenOutcome::Unavailable,
    }
}

/// Whether the bytes that were read are a whole file: what is read stops one byte
/// behind the limit, so more than the limit shows that the file is larger.
pub fn read_instruction_bytes(bytes: Vec<u8>) -> (result: Option<Vec<u8>>)
    ensures
        result == if bytes@.len() > MAX_CONFIGURED_INSTRUCTION_FILE_BYTES {
            None
        } else {
            Some(bytes)
        },
{
    if bytes.len() as u64 > MAX_CONFIGURED_INSTRUCTION_FILE_BYTES {
        None
    } else {
        Some(bytes)
    }
}

// ---- Counting lines ----------------------------------------------------------------------

/// How many line feeds a text holds.
pub open spec fn line_feeds(content: Seq<char>) -> nat
    decreases content.len(),
{
    if content.len() == 0 {
        0
    } else {
        line_feeds(content.drop_last()) + if content.last() == '\n' {
            1nat
        } else {
            0nat
        }
    }
}

/// How many lines a text has: one for each line feed, and one for what stands
/// behind the last.
pub open spec fn line_count_of(content: Seq<char>) -> nat {
    line_feeds(content) + if content.len() > 0 && content.last() != '\n' {
        1nat
    } else {
        0nat
    }
}

/// How many lines a text has.
pub fn line_count(content: &str) -> (count: usize)
    ensures
        count == line_count_of(content@),
{
    let all = lines(content);
    proof {
        assert(text::texts(all@).len() == all@.len());
        law_line_count_is_the_number_of_lines(content@);
    }
    all.len()
}

proof fn lemma_line_feeds_split(a: Seq<char>, b: Seq<char>)
    ensures
        line_feeds(a + b) == line_feeds(a) + line_feeds(b),
    decreases b.len(),
{
    if b.len() == 0 {
        assert(a + b =~= a);
    } else {
        assert((a + b).drop_last() =~= a + b.drop_last());
        lemma_line_feeds_split(a, b.drop_last());
    }
}

proof fn lemma_no_line_feeds(content: Seq<char>)
    requires
        forall|i: int| 0 <= i < content.len() ==> content[i] != '\n',
    ensures
        line_feeds(content) == 0,
    decreases content.len(),
{
    if content.len() > 0 {
        assert(content.last() == content[content.len() - 1]);
        lemma_no_line_feeds(content.drop_last());
    }
}

/// The number of lines is that of the lines into which the text falls.
pub proof fn law_line_count_is_the_number_of_lines(content: Seq<char>)
    ensures
        line_count_of(content) == text::lines_of(content).len(),
    decreases content.len(),
{
    if content.len() > 0 {
        let at = text::first_index(content, '\n');
        text::lemma_first_index(content, '\n');
        if at >= content.len() {
            lemma_no_line_feeds(content);
            assert(content.last() == content[content.len() - 1]);
        } else {
            let line = content.take(at as int);
            let rest = content.skip(at as int + 1);
            law_line_count_is_the_number_of_lines(rest);
            assert(content =~= line + (seq!['\n'] + rest));
            lemma_line_feeds_split(line, seq!['\n'] + rest);
            lemma_line_feeds_split(seq!['\n'], rest);
            lemma_no_line_feeds(line);
            assert(seq!['\n'].drop_last() =~= Seq::<char>::empty());
            assert(line_feeds(seq!['\n'].drop_last()) == 0);
            assert(seq!['\n'].last() == '\n');
            assert(line_feeds(seq!['\n']) == 1);
            if rest.len() > 0 {
                assert(content.last() == rest.last());
            }
        }
    }
}

// ---- Gathering ---------------------------------------------------------------------------

/// What the disk shows of a configured file. What stands behind the first fault
/// need not be looked at.
#[derive(Debug)]
pub struct ConfiguredFile {
    /// The last component of its path, where it is text.
    pub basename: Option<String>,
    pub opened: OpenOutcome,
    /// The identity of its canonical path, where that is a file.
    pub identity: Option<String>,
    /// Its length, where that could be read.
    pub length: Option<u64>,
    /// Its bytes, where they could be read.
    pub bytes: Option<Vec<u8>>,
}

/// An instruction file that was read.
#[derive(Debug)]
pub struct LoadedInstructionCandidate {
    pub path: String,
    pub content: String,
    pub total_lines: usize,
    pub full_sha256: String,
}

/// What a [`LoadedInstructionCandidate`] stands for.
pub struct CandidateView {
    pub path: Seq<char>,
    pub content: Seq<char>,
    pub total_lines: nat,
    pub full_sha256: Seq<char>,
}

impl View for LoadedInstructionCandidate {
    type V = CandidateView;

    open spec fn view(&self) -> CandidateView {
        CandidateView {
            path: self.path@,
            content: self.content@,
            total_lines: self.total_lines as nat,
            full_sha256: self.full_sha256@,
        }
    }
}

/// The files that were read so far.
#[derive(Debug)]
pub struct InstructionScan {
    pub candidates: Vec<LoadedInstructionCandidate>,
    pub identities: Vec<String>,
    pub scan_complete: bool,
}

/// What an [`InstructionScan`] stands for.
pub struct ScanView {
    pub candidates: Seq<CandidateView>,
    pub identities: Seq<Seq<char>>,
    pub scan_complete: bool,
}

/// What candidates stand for.
pub open spec fn candidates_view(candidates: Seq<LoadedInstructionCandidate>) -> Seq<CandidateView> {
    Seq::new(candidates.len(), |i: int| candidates[i]@)
}

impl View for InstructionScan {
    type V = ScanView;

    open spec fn view(&self) -> ScanView {
        ScanView {
            candidates: candidates_view(self.candidates@),
            identities: text::texts(self.identities@),
            scan_complete: self.scan_complete,
        }
    }
}

/// The name under which a file is shown: its place in the configuration and its
/// own name.
pub open spec fn logical_name(index: usize, basename: Option<String>) -> Seq<char> {
    "runner/"@ + text::decimal(index as nat) + "/"@ + match basename {
        Some(name) => if name@.len() > 0 {
            name@
        } else {
            "instructions"@
        },
        None => "instructions"@,
    }
}

/// The file that was read.
pub open spec fn candidate_of(index: usize, basename: Option<String>, content: Seq<char>) -> CandidateView {
    CandidateView {
        path: logical_name(index, basename),
        content,
        total_lines: line_count_of(content),
        full_sha256: digest::sha256_of(encode_utf8(content)),
    }
}

/// Whether a file is whole: within the limit, and as long as it said.
pub open spec fn whole(length: Option<u64>, bytes: Option<Vec<u8>>) -> bool {
    match (length, bytes) {
        (Some(length), Some(bytes)) => length <= MAX_CONFIGURED_INSTRUCTION_FILE_BYTES
            && bytes@.len() == length,
        _ => false,
    }
}

/// The scan after a configured file. A file that is gone withdraws what it said;
/// one that cannot be read whole, that is there twice or that is no text leaves
/// the scan incomplete; an empty one says nothing.
pub open spec fn scanned(state: ScanView, index: usize, file: ConfiguredFile) -> ScanView {
    let incomplete = ScanView { scan_complete: false, ..state };
    match file.opened {
        OpenOutcome::Missing => state,
        OpenOutcome::Unavailable => incomplete,
        OpenOutcome::Opened => match file.identity {
            None => incomplete,
            Some(identity) => if state.identities.contains(identity@) {
                incomplete
            } else {
                let known = ScanView { identities: state.identities.push(identity@), ..state };
                if !whole(file.length, file.bytes) || !valid_utf8(file.bytes->Some_0@) {
                    ScanView { scan_complete: false, ..known }
                } else {
                    let content = decode_utf8(file.bytes->Some_0@);
                    if content.len() == 0 {
                        known
                    } else {
                        ScanView {
                            candidates: known.candidates.push(
                                candidate_of(index, file.basename, content),
                            ),
                            ..known
                        }
                    }
                }
            },
        },
    }
}

fn logical_text(index: usize, basename: &Option<String>) -> (path: String)
    ensures
        path@ == logical_name(index, *basename),
{
    let name = match basename {
        Some(name) => if name.as_str().is_empty() {
            "instructions"
        } else {
            name.as_str()
        },
        None => "instructions",
    };
    let mut path = "runner/".to_owned();
    path.append(decimal_text(index as u64).as_str());
    path.append("/");
    path.append(name);
    path
}

fn candidate(index: usize, basename: &Option<String>, content: String) -> (result:
    LoadedInstructionCandidate)
    ensures
        result@ == candidate_of(index, *basename, content@),
        runner_instruction::sha256_digest(result.full_sha256@),
{
    let path = logical_text(index, basename);
    let total_lines = line_count(content.as_str());
    let full_sha256 = sha256_hex(content.as_str().as_bytes());
    LoadedInstructionCandidate { path, content, total_lines, full_sha256 }
}

fn whole_bytes(length: Option<u64>, bytes: Option<Vec<u8>>) -> (result: Option<Vec<u8>>)
    ensures
        result == if whole(length, bytes) {
            bytes
        } else {
            None
        },
{
    match (length, bytes) {
        (Some(length), Some(bytes)) => if length <= MAX_CONFIGURED_INSTRUCTION_FILE_BYTES
            && bytes.len() as u64 == length {
            Some(bytes)
        } else {
            None
        },
        _ => None,
    }
}

impl InstructionScan {
    /// A scan of nothing: complete.
    pub fn new() -> (scan: InstructionScan)
        ensures
            scan@ == (ScanView {
                candidates: Seq::empty(),
                identities: Seq::empty(),
                scan_complete: true,
            }),
    {
        let scan = InstructionScan {
            candidates: Vec::new(),
            identities: Vec::new(),
            scan_complete: true,
        };
        assert(scan@.candidates =~= Seq::<CandidateView>::empty());
        assert(scan@.identities =~= Seq::<Seq<char>>::empty());
        scan
    }

    /// Whether a file of this identity was seen already.
    pub fn knows(&self, identity: &str) -> (known: bool)
        ensures
            known == self@.identities.contains(identity@),
    {
        let ghost all = text::texts(self.identities@);
        let mut i: usize = 0;
        while i < self.identities.len()
            invariant
                i <= self.identities@.len(),
                all == text::texts(self.identities@),
                forall|j: int| 0 <= j < i ==> (#[trigger] all[j]) != identity@,
            decreases self.identities@.len() - i,
        {
            if same_text(self.identities[i].as_str(), identity) {
                assert(all[i as int] == identity@);
                return true;
            }
            i = i + 1;
        }
        false
    }

    /// Takes in a configured file; `index` is its place in the configuration.
    pub fn take_file(&mut self, index: usize, file: ConfiguredFile)
        ensures
            final(self)@ == scanned(old(self)@, index, file),
    {
        match file.opened {
            OpenOutcome::Missing => {
                return ;
            },
            OpenOutcome::Unavailable => {
                self.scan_complete = false;
                return ;
            },
            OpenOutcome::Opened => {},
        }
        let identity = match file.identity {
            Some(identity) => identity,
            None => {
                self.scan_complete = false;
                return ;
            },
        };
        if self.knows(identity.as_str()) {
            self.scan_complete = false;
            return ;
        }
        let ghost before = self@.identities;
        let ghost held = identity@;
        self.identities.push(identity);
        assert(self@.identities =~= before.push(held));
        let bytes = match whole_bytes(file.length, file.bytes) {
            Some(bytes) => bytes,
            None => {
                self.scan_complete = false;
                return ;
            },
        };
        let content = match utf8_text(bytes) {
            Some(content) => content,
            None => {
                self.scan_complete = false;
                return ;
            },
        };
        if content.as_str().is_empty() {
            return ;
        }
        let ghost listed = self@.candidates;
        let found = candidate(index, &file.basename, content);
        let ghost view = found@;
        self.candidates.push(found);
        assert(self@.candidates =~= listed.push(view));
    }
}

// ---- The response ------------------------------------------------------------------------

/// Lines joined by line feeds.
pub open spec fn joined_lines(all: Seq<Seq<char>>) -> Seq<char>
    decreases all.len(),
{
    if all.len() == 0 {
        Seq::empty()
    } else if all.len() == 1 {
        all[0]
    } else {
        joined_lines(all.drop_last()) + "\n"@ + all.last()
    }
}

/// The first lines of a text, at most as many as are shown.
pub open spec fn shown_lines(content: Seq<char>) -> Seq<Seq<char>> {
    let all = text::lines_of(content);
    if all.len() > MAX_LINES_PER_FILE {
        all.take(MAX_LINES_PER_FILE as int)
    } else {
        all
    }
}

/// What is shown of a text: its first lines, joined by line feeds, and of those the
/// first characters. Both bounds hold of each file by itself; that the bound on the
/// characters, whose name speaks of a total, is not shared out among files is a
/// choice of this library.
pub open spec fn shown_content(content: Seq<char>) -> Seq<char> {
    let all = joined_lines(shown_lines(content));
    if all.len() > MAX_TOTAL_CHARS {
        all.take(MAX_TOTAL_CHARS as int)
    } else {
        all
    }
}

/// Whether less is shown of a text than there is.
pub open spec fn is_cut(content: Seq<char>) -> bool {
    text::lines_of(content).len() > MAX_LINES_PER_FILE || joined_lines(
        shown_lines(content),
    ).len() > MAX_TOTAL_CHARS
}

fn join_lines(all: &Vec<String>, count: usize) -> (joined: String)
    requires
        count <= all@.len(),
    ensures
        joined@ == joined_lines(text::texts(all@).take(count as int)),
{
    let ghost pieces = text::texts(all@);
    let mut joined = String::new();
    let mut i: usize = 0;
    assert(pieces.take(0) =~= Seq::<Seq<char>>::empty());
    assert(joined@ =~= joined_lines(pieces.take(0)));
    while i < count
        invariant
            i <= count <= all@.len(),
            pieces == text::texts(all@),
            joined@ == joined_lines(pieces.take(i as int)),
        decreases count - i,
    {
        assert(pieces.take(i + 1).drop_last() =~= pieces.take(i as int));
        assert(pieces.take(i + 1).last() == all@[i as int]@);
        if i > 0 {
            joined.append("\n");
        } else {
            assert(joined@ =~= Seq::<char>::empty());
        }
        joined.append(all[i].as_str());
        assert(joined@ =~= joined_lines(pieces.take(i + 1)));
        i = i + 1;
    }
    joined
}

/// An instruction file as it is shown: the beginning of its text, under its
/// logical name, with the digest of the whole.
pub open spec fn shown_file(file: ProjectInstructionFile, candidate: CandidateView) -> bool {
    &&& file.source_scope == InstructionSourceScope::Runner
    &&& file.path@ == candidate.path
    &&& file.content@ == shown_content(candidate.content)
    &&& file.start_line == 1
    &&& file.limit == MAX_LINES_PER_FILE
    &&& file.chars == file.content@.len()
    &&& file.total_lines == candidate.total_lines
    &&& file.truncated == is_cut(candidate.content)
    &&& file.read_more is None
    &&& file.fingerprint@ == candidate.full_sha256
}

/// An instruction file as it is shown.
pub fn project_file(candidate: LoadedInstructionCandidate) -> (file: ProjectInstructionFile)
    ensures
        shown_file(file, candidate@),
{
    let all = lines(candidate.content.as_str());
    assert(text::texts(all@).len() == all@.len());
    let count: usize = if all.len() > MAX_LINES_PER_FILE {
        MAX_LINES_PER_FILE
    } else {
        all.len()
    };
    let joined = join_lines(&all, count);
    proof {
        if all@.len() <= MAX_LINES_PER_FILE {
            assert(text::texts(all@).take(count as int) =~= text::texts(all@));
        }
        assert(text::texts(all@).take(count as int) =~= shown_lines(candidate.content@));
    }
    let chars = chars_of(joined.as_str());
    let long = chars.len() > MAX_TOTAL_CHARS;
    let truncated = all.len() > MAX_LINES_PER_FILE || long;
    let content = if long {
        text_from_chars(&chars, 0, MAX_TOTAL_CHARS)
    } else {
        joined
    };
    assert(content@ =~= shown_content(candidate.content@));
    let size = content.as_str().unicode_len();
    ProjectInstructionFile {
        source_scope: InstructionSourceScope::Runner,
        path: candidate.path,
        content,
        start_line: 1,
        limit: MAX_LINES_PER_FILE,
        chars: size,
        total_lines: candidate.total_lines,
        truncated,
        read_more: None,
        fingerprint: candidate.full_sha256,
    }
}

/// The response that a scan comes to.
pub fn scan_response(scan: InstructionScan, generation: u64) -> (response:
    RunnerInstructionSnapshotResponse)
    ensures
        response.format@ == RUNNER_INSTRUCTION_RESPONSE_FORMAT@,
        response.generation == generation,
        response.scan_complete == scan.scan_complete,
        response.files@.len() == scan.candidates@.len(),
        forall|i: int|
            0 <= i < response.files@.len() ==> shown_file(
                #[trigger] response.files@[i],
                scan.candidates@[i]@,
            ),
{
    let mut pending = scan.candidates;
    let ghost all = pending@;
    let mut files: Vec<ProjectInstructionFile> = Vec::new();
    while pending.len() > 0
        invariant
            files@.len() + pending@.len() == all.len(),
            forall|i: int|
                0 <= i < pending@.len() ==> (#[trigger] pending@[i]) == all[files@.len() + i],
            forall|i: int|
                0 <= i < files@.len() ==> shown_file(#[trigger] files@[i], all[i]@),
        decreases pending@.len(),
    {
        let candidate = pending.remove(0);
        files.push(project_file(candidate));
    }
    RunnerInstructionSnapshotResponse {
        format: RUNNER_INSTRUCTION_RESPONSE_FORMAT.to_owned(),
        generation,
        scan_complete: scan.scan_complete,
        files,
    }
}

/// A failure of a request for instruction files.
pub open spec fn failure_result(code: Seq<char>, duration_ms: u64) -> command::CommandView {
    command::CommandView {
        exit_code: Some(1),
        stdout: None,
        stderr: None,
        duration_ms: Some(duration_ms),
        error: Some(code),
    }
}

/// A failure of a request for instruction files.
pub fn error_result(duration_ms: u64, code: &str) -> (result: CommandResult)
    ensures
        result@ == failure_result(code@, duration_ms),
{
    CommandResult {
        exit_code: Some(1),
        stdout: None,
        stderr: None,
        duration_ms: Some(duration_ms),
        error: Some(code.to_owned()),
    }
}

/// The result of a request for instruction files: the text of the response, where
/// the response is sound and its text could be made and is not too large.
pub fn snapshot_result(
    response: &RunnerInstructionSnapshotResponse,
    written: Option<String>,
    duration_ms: u64,
) -> (result: CommandResult)
    ensures
        result@ == if runner_instruction::response_fault(*response) is Some {
            failure_result("instruction_response_invalid"@, duration_ms)
        } else if written matches Some(held) && text::byte_len(held@)
            <= RUNNER_INSTRUCTION_RESPONSE_MAX_BYTES {
            command::CommandView {
                exit_code: Some(0),
                stdout: text::text_of(written),
                stderr: None,
                duration_ms: Some(duration_ms),
                error: None,
            }
        } else {
            failure_result("instruction_response_too_large"@, duration_ms)
        },
{
    if response.validate().is_err() {
        return error_result(duration_ms, "instruction_response_invalid");
    }
    match written {
        Some(stdout) => if byte_count(stdout.as_str()) <= RUNNER_INSTRUCTION_RESPONSE_MAX_BYTES {
            CommandResult {
                exit_code: Some(0),
                stdout: Some(stdout),
                stderr: None,
                duration_ms: Some(duration_ms),
                error: None,
            }
        } else {
            error_result(duration_ms, "instruction_response_too_large")
        },
        None => error_result(duration_ms, "instruction_response_too_large"),
    }
}

// ---- Laws ----------------------------------------------------------------------------------

/// Whether a component is a directory and no link.
pub open spec fn plain_directory(state: ComponentState) -> bool {
    state matches ComponentState::Present { link_like, is_dir, .. } && !link_like && is_dir
}

/// A file counts as gone only where every directory on the way to it is there and
/// is no link: a directory that is missing or leads elsewhere is no removal.
pub proof fn law_missing_parent_is_no_removal(components: Seq<ComponentState>)
    ensures
        path_says(components) == Some(OpenOutcome::Missing) ==> {
            &&& components.last() == ComponentState::Missing
            &&& forall|i: int|
                0 <= i < components.len() - 1 ==> plain_directory(#[trigger] components[i])
        },
    decreases components.len(),
{
    if components.len() == 1 {
        assert(path_says(components.drop_first()) is None);
    } else if components.len() > 1 {
        let rest = components.drop_first();
        law_missing_parent_is_no_removal(rest);
        if path_says(components) == Some(OpenOutcome::Missing) {
            assert(component_says(components[0], false) is None);
            assert(rest.last() == components.last());
            assert forall|i: int| 0 <= i < components.len() - 1 implies plain_directory(
                #[trigger] components[i],
            ) by {
                if i > 0 {
                    assert(rest[i - 1] == components[i]);
                }
            }
        }
    }
}

/// No link is followed: a path with a link anywhere on it is not opened.
pub proof fn law_links_are_not_followed(components: Seq<ComponentState>, i: int)
    requires
        0 <= i < components.len(),
        components[i] matches ComponentState::Present { link_like, .. } && link_like,
    ensures
        path_says(components) is Some,
    decreases components.len(),
{
    if i > 0 {
        law_links_are_not_followed(components.drop_first(), i - 1);
    }
}

/// A file that cannot be read does not look like one that was removed: the scan
/// is incomplete from then on, whatever follows.
pub proof fn law_incomplete_scan_stays_incomplete(
    state: ScanView,
    index: usize,
    file: ConfiguredFile,
)
    ensures
        !state.scan_complete ==> !scanned(state, index, file).scan_complete,
        file.opened == OpenOutcome::Unavailable ==> !scanned(state, index, file).scan_complete,
        file.opened == OpenOutcome::Missing ==> scanned(state, index, file) == state,
{
}

/// What is shown of a file is within its bounds, whatever the file holds.
pub proof fn law_shown_file_is_bounded(content: Seq<char>)
    ensures
        shown_content(content).len() <= MAX_TOTAL_CHARS,
        shown_lines(content).len() <= MAX_LINES_PER_FILE,
{
}

/// The fingerprint of a file is the digest of the whole of it, not of what is
/// shown: a change behind the lines that are shown leaves those as they are, and
/// the fingerprints agree exactly if the digests of the whole files do.
pub proof fn law_fingerprint_is_of_the_whole(
    index: usize,
    basename: Option<String>,
    before: Seq<char>,
    after: Seq<char>,
    first: ProjectInstructionFile,
    second: ProjectInstructionFile,
)
    requires
        shown_file(first, candidate_of(index, basename, before)),
        shown_file(second, candidate_of(index, basename, after)),
        text::lines_of(before).len() > MAX_LINES_PER_FILE,
        text::lines_of(after).len() > MAX_LINES_PER_FILE,
        text::lines_of(before).take(MAX_LINES_PER_FILE as int) == text::lines_of(after).take(
            MAX_LINES_PER_FILE as int,
        ),
    ensures
        first.content@ == second.content@,
        first.truncated && second.truncated,
        before == after ==> first.fingerprint@ == second.fingerprint@,
        first.fingerprint@ == second.fingerprint@ <==> digest::sha256_of(encode_utf8(before))
            == digest::sha256_of(encode_utf8(after)),
{
}

/// A path may be opened exactly where every part of it is a plain directory and its
/// last a plain file; a part that is missing on the way, cannot be read, is a link
/// or is of the wrong kind makes it unavailable, and only a missing last part makes
/// it missing.
pub proof fn law_path_opens_through_plain_directories(
    components: Seq<ComponentState>,
    i: int,
)
    requires
        0 <= i < components.len(),
        forall|j: int| 0 <= j < i ==> plain_directory(#[trigger] components[j]),
    ensures
        i < components.len() - 1 && !plain_directory(components[i]) ==> path_says(components)
            == Some(OpenOutcome::Unavailable),
        i == components.len() - 1 ==> path_says(components) == (match components[i] {
            ComponentState::Missing => Some(OpenOutcome::Missing),
            ComponentState::Unreadable => Some(OpenOutcome::Unavailable),
            ComponentState::Present { link_like, is_file, .. } => if is_file && !link_like {
                None
            } else {
                Some(OpenOutcome::Unavailable)
            },
        }),
    decreases components.len(),
{
    if i > 0 {
        assert(plain_directory(components[0]));
        let rest = components.drop_first();
        assert forall|j: int| 0 <= j < i - 1 implies plain_directory(#[trigger] rest[j]) by {
            assert(rest[j] == components[j + 1]);
        }
        law_path_opens_through_plain_directories(rest, i - 1);
        assert(rest[i - 1] == components[i]);
    } else if components.len() == 1 {
        assert(path_says(components.drop_first()) is None);
    }
}

/// What a file adds to a scan. One that opened under a new identity, was read whole
/// and is text is added, under its number and name, with its content, its lines and
/// the digest of the whole, unless it is empty; nothing else is added, and the scan
/// is complete as before. One that was seen before, has no identity, was not read
/// whole or is no text adds nothing and leaves the scan incomplete.
pub proof fn law_file_is_taken_whole_and_once(
    state: ScanView,
    index: usize,
    file: ConfiguredFile,
)
    requires
        file.opened == OpenOutcome::Opened,
    ensures
        file.identity is None ==> scanned(state, index, file) == (ScanView {
            scan_complete: false,
            ..state
        }),
        file.identity matches Some(identity) ==> {
            let after = scanned(state, index, file);
            let seen = state.identities.contains(identity@);
            let read = file.length matches Some(length) && (file.bytes matches Some(bytes) && length
                <= 1048576 && bytes@.len() == length && valid_utf8(bytes@));
            &&& seen ==> after == (ScanView { scan_complete: false, ..state })
            &&& !seen ==> after.identities == state.identities.push(identity@)
            &&& !seen && !read ==> !after.scan_complete && after.candidates == state.candidates
            &&& !seen && read ==> {
                let content = decode_utf8(file.bytes->Some_0@);
                &&& after.scan_complete == state.scan_complete
                &&& content.len() == 0 ==> after.candidates == state.candidates
                &&& content.len() > 0 ==> {
                    let added = after.candidates.last();
                    &&& after.candidates.len() == state.candidates.len() + 1
                    &&& after.candidates.drop_last() == state.candidates
                    &&& added.content == content
                    &&& added.total_lines == text::lines_of(content).len()
                    &&& added.full_sha256 == digest::sha256_of(encode_utf8(content))
                    &&& added.path == "runner/"@ + text::decimal(index as nat) + "/"@ + (
                    match file.basename {
                        Some(name) => if name@.len() > 0 {
                            name@
                        } else {
                            "instructions"@
                        },
                        None => "instructions"@,
                    })
                }
            }
        },
{
    if let Some(identity) = file.identity {
        if let Some(bytes) = file.bytes {
            let content = decode_utf8(bytes@);
            law_line_count_is_the_number_of_lines(content);
            let after = scanned(state, index, file);
            if after.candidates.len() == state.candidates.len() + 1 {
                assert(after.candidates.drop_last() =~= state.candidates);
            }
        }
    }
}

/// Lines are joined one behind the other, with a line feed between two of them.
pub proof fn law_lines_are_joined_in_order(first: Seq<char>, rest: Seq<Seq<char>>)
    ensures
        joined_lines(Seq::empty()) == Seq::<char>::empty(),
        joined_lines(seq![first]) == first,
        rest.len() > 0 ==> joined_lines(seq![first] + rest) == first + "\n"@ + joined_lines(rest),
    decreases rest.len(),
{
    let all = seq![first] + rest;
    if rest.len() == 1 {
        assert(all.drop_last() =~= seq![first]);
        assert(joined_lines(seq![first]) == first);
        assert(all.last() == rest[0]);
        assert(joined_lines(rest) == rest[0]);
    } else if rest.len() > 1 {
        law_lines_are_joined_in_order(first, rest.drop_last());
        assert(all.drop_last() =~= seq![first] + rest.drop_last());
        assert(all.last() == rest.last());
        let front = joined_lines(rest.drop_last());
        assert(joined_lines(rest) == front + "\n"@ + rest.last());
        assert(first + "\n"@ + front + "\n"@ + rest.last() =~= first + "\n"@ + (front + "\n"@
            + rest.last()));
    }
}

/// A file without carriage returns that ends within its last line, and is within the
/// bounds, is shown as it is, and not as cut.
pub proof fn law_small_file_is_shown_as_it_is(content: Seq<char>)
    requires
        content.len() > 0,
        !content.contains('\r'),
        content.last() != '\n',
        text::lines_of(content).len() <= 400,
        content.len() <= 32768,
    ensures
        shown_content(content) == content,
        !is_cut(content),
{
    lemma_joined_back(content);
}

proof fn lemma_joined_back(content: Seq<char>)
    requires
        content.len() > 0,
        !content.contains('\r'),
        content.last() != '\n',
    ensures
        text::lines_of(content).len() > 0,
        joined_lines(text::lines_of(content)) == content,
    decreases content.len(),
{
    reveal_strlit("\n");
    let at = text::first_index(content, '\n');
    text::lemma_first_index(content, '\n');
    if at < content.len() {
        let line = content.take(at as int);
        let rest = content.skip(at as int + 1);
        assert(content =~= line.push('\n') + rest);
        assert(rest.len() > 0);
        assert(rest.last() == content.last());
        assert(!rest.contains('\r')) by {
            if rest.contains('\r') {
                let i = choose|i: int| 0 <= i < rest.len() && rest[i] == '\r';
                assert(content[i + at as int + 1] == '\r');
            }
        }
        assert(line.len() == 0 || line.last() != '\r') by {
            if line.len() > 0 {
                assert(content.contains(content[line.len() - 1]));
            }
        }
        lemma_joined_back(rest);
        law_lines_are_joined_in_order(line, text::lines_of(rest));
        assert(text::without_return(line) == line);
        assert(content =~= line + "\n"@ + rest);
    }
}

/// A file that is too long is cut after four hundred lines, or within them after so
/// many characters, and is shown as cut; what is shown is a beginning of it.
pub proof fn law_long_file_is_cut_and_says_so(content: Seq<char>)
    ensures
        text::lines_of(content).len() > 400 ==> is_cut(content) && shown_lines(content)
            == text::lines_of(content).take(400),
        text::lines_of(content).len() <= 400 ==> shown_lines(content) == text::lines_of(content),
        joined_lines(shown_lines(content)).len() > 32768 ==> is_cut(content) && shown_content(
            content,
        ) == joined_lines(shown_lines(content)).take(32768),
        joined_lines(shown_lines(content)).len() <= 32768 ==> shown_content(content)
            == joined_lines(shown_lines(content)),
        text::lines_of(content).len() <= 400 && joined_lines(shown_lines(content)).len() <= 32768
            ==> !is_cut(content),
{
}

/// A scan that fails is answered with exit code one and the code of what failed,
/// and shows nothing.
pub proof fn law_failed_scan_says_its_code(code: Seq<char>, duration_ms: u64)
    ensures
        failure_result(code, duration_ms).exit_code == Some(1i32),
        failure_result(code, duration_ms).error == Some(code),
        failure_result(code, duration_ms).stdout is None,
        failure_result(code, duration_ms).duration_ms == Some(duration_ms),
{
}

/// A file that is open is taken where it is a plain file; one that is gone is
/// missing; anything else is unavailable.
pub proof fn law_opened_file_is_a_plain_file(handle: HandleState, outcome: OpenOutcome)
    requires
        call_ensures(open_instruction_file, (handle,), outcome),
    ensures
        outcome == OpenOutcome::Opened <==> (handle matches HandleState::Open { link_like, is_file }
            && is_file && !link_like),
        outcome == OpenOutcome::Missing <==> handle is Missing,
{
}

/// A file is read whole or not at all: one that is too large gives nothing.
pub proof fn law_large_file_gives_nothing(bytes: Vec<u8>, result: Option<Vec<u8>>)
    requires
        call_ensures(read_instruction_bytes, (bytes,), result),
    ensures
        bytes@.len() <= 1048576 ==> (result matches Some(held) && held@ == bytes@),
        bytes@.len() > 1048576 ==> result is None,
{
}

/// The response to a scan holds what was scanned: of each file what is shown of it,
/// in their order, under the generation of the configuration, and as complete as the
/// scan was.
pub proof fn law_response_holds_the_scan(
    scan: InstructionScan,
    generation: u64,
    response: RunnerInstructionSnapshotResponse,
    i: int,
)
    requires
        call_ensures(scan_response, (scan, generation), response),
    ensures
        response.generation == generation,
        response.scan_complete == scan.scan_complete,
        response.files@.len() == scan.candidates@.len(),
        0 <= i < response.files@.len() ==> {
            let file = response.files@[i];
            let candidate = scan.candidates@[i];
            &&& file.source_scope == InstructionSourceScope::Runner
            &&& file.path@ == candidate.path@
            &&& file.content@ == shown_content(candidate.content@)
            &&& file.start_line == 1 && file.limit == 400
            &&& file.chars == file.content@.len()
            &&& file.total_lines == candidate.total_lines
            &&& file.truncated == is_cut(candidate.content@)
            &&& file.read_more is None
            &&& file.fingerprint@ == candidate.full_sha256@
        },
{
}

/// A scan is answered with what was written of its response where that is sound and
/// not too large; an unsound response and one that is too large each have their own
/// code.
pub proof fn law_scan_is_answered_with_its_response(
    response: RunnerInstructionSnapshotResponse,
    written: Option<String>,
    duration_ms: u64,
    result: CommandResult,
)
    requires
        call_ensures(snapshot_result, (&response, written, duration_ms), result),
    ensures
        runner_instruction::response_fault(response) is Some ==> result@.exit_code == Some(1i32)
            && result@.error == Some("instruction_response_invalid"@) && result@.stdout is None,
        runner_instruction::response_fault(response) is None ==> (written matches Some(held) ==> {
            &&& text::byte_len(held@) <= 196608 ==> result@.exit_code == Some(0i32)
                && result@.stdout == Some(held@) && result@.error is None
            &&& text::byte_len(held@) > 196608 ==> result@.exit_code == Some(1i32) && result@.error
                == Some("instruction_response_too_large"@) && result@.stdout is None
        }),
        runner_instruction::response_fault(response) is None && written is None
            ==> result@.exit_code == Some(1i32) && result@.error == Some(
            "instruction_response_too_large"@,
        ),
        result@.duration_ms == Some(duration_ms),
{
}

} // verus!
