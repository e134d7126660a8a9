//! The request for a managed worktree, and the root below which it is made.
use crate::json;
use crate::json::{parse_json, JsonValue};
use crate::text;
use crate::text::{byte_count, has_char, own_text, trim};
use vstd::prelude::*;
use vstd::string::*;

verus! {

/// A request for a managed worktree.
#[derive(Debug)]
pub struct PrepareRequest {
    pub path: String,
    pub requested_base_ref: Option<String>,
    pub base_ref: String,
    pub resume_project_id: Option<String>,
    pub operation_id: String,
}

/// What a [`PrepareRequest`] stands for.
pub struct RequestView {
    pub path: Seq<char>,
    pub requested_base_ref: Option<Seq<char>>,
    pub base_ref: Seq<char>,
    pub resume_project_id: Option<Seq<char>>,
    pub operation_id: Seq<char>,
}

impl View for PrepareRequest {
    type V = RequestView;

    open spec fn view(&self) -> RequestView {
        RequestView {
            path: self.path@,
            requested_base_ref: text::text_of(self.requested_base_ref),
            base_ref: self.base_ref@,
            resume_project_id: text::text_of(self.resume_project_id),
            operation_id: self.operation_id@,
        }
    }
}

/// Why a request was refused: the kind, and the base reference where it was
/// known by then.
#[derive(Debug)]
pub struct RequestRefusal {
    pub kind: &'static str,
    pub base_ref: Option<String>,
}

/// Whether a text is a UUID with its hyphens: 8, 4, 4, 4 and 12 hexadecimal digits.
pub open spec fn is_hyphenated(text: Seq<char>) -> bool {
    text.len() == 36 && forall|i: int|
        0 <= i < 36 ==> if i == 8 || i == 13 || i == 18 || i == 23 {
            #[trigger] text[i] == '-'
        } else {
            text::is_hex_digit(text[i])
        }
}

/// Whether a text is one of the spellings of a UUID: its 32 digits alone, with
/// their hyphens, so in braces, or so behind `urn:uuid:` in either case.
pub open spec fn uuid_accepts(text: Seq<char>) -> bool {
    ||| text.len() == 32 && text::all_hex(text)
    ||| is_hyphenated(text)
    ||| text.len() == 38 && text[0] == '{' && text[37] == '}' && is_hyphenated(
        text.subrange(1, 37),
    )
    ||| text.len() == 45 && text::ascii_lowered(text.take(9)) == "urn:uuid:"@ && is_hyphenated(
        text.skip(9),
    )
}

/// `uuid::Uuid::parse_str`: it accepts exactly the spellings of [`uuid_accepts`].
#[verifier::external_body]
fn is_uuid(held: &str) -> (accepted: bool)
    ensures
        accepted == uuid_accepts(held@),
{
    uuid::Uuid::parse_str(held).is_ok()
}

/// A reference may be longer than this many bytes in no request.
pub const MAX_BASE_REF_BYTES: usize = 1024;

/// The path that a payload asks for, where it is usable text.
pub open spec fn path_of(payload: json::JsonView) -> Option<Seq<char>> {
    match payload.text_field("path"@) {
        Some(path) => if path.len() > 0 && !path.contains('\0') {
            Some(path)
        } else {
            None
        },
        None => None,
    }
}

/// Whether a text can be a base reference.
pub open spec fn usable_base_ref(held: Seq<char>) -> bool {
    text::trimmed(held).len() > 0 && text::byte_len(held) <= MAX_BASE_REF_BYTES && !held.contains(
        '\0',
    )
}

/// The base reference that a payload asks for: `None` where the field is
/// missing or unusable, `Some(None)` where it is null.
pub open spec fn base_ref_of(payload: json::JsonView) -> Option<Option<Seq<char>>> {
    match payload.get("base_ref"@) {
        Some(json::JsonView::Null) => Some(None),
        Some(json::JsonView::Text(held)) => if usable_base_ref(held) {
            Some(Some(held))
        } else {
            None
        },
        _ => None,
    }
}

/// The project that a payload wants to resume: `None` where the field is
/// missing or unusable, `Some(None)` where it is null.
pub open spec fn resume_of(payload: json::JsonView) -> Option<Option<Seq<char>>> {
    match payload.get("resume_project_id"@) {
        Some(json::JsonView::Null) => Some(None),
        Some(json::JsonView::Text(held)) => if text::trimmed(held).len() > 0 {
            Some(Some(held))
        } else {
            None
        },
        _ => None,
    }
}

/// The reference that is used: the one asked for, else `HEAD`.
pub open spec fn effective_base_ref(requested: Option<Seq<char>>) -> Seq<char> {
    match requested {
        Some(held) => held,
        None => "HEAD"@,
    }
}

/// The request that a payload makes, or the kind of its refusal with the base
/// reference that was known by then. `absolute` says whether the path is
/// absolute on this platform.
pub open spec fn request_of(payload: json::JsonView, absolute: bool) -> Result<
    RequestView,
    (Seq<char>, Option<Seq<char>>),
> {
    if !(payload matches json::JsonView::Object(fields) && fields.len() == 4) {
        Err(("invalid_request"@, None))
    } else if path_of(payload) is None || !absolute {
        Err(("invalid_project_path"@, None))
    } else {
        match base_ref_of(payload) {
            None => Err(("invalid_base_ref"@, None)),
            Some(requested) => {
                let base_ref = effective_base_ref(requested);
                match (resume_of(payload), payload.text_field("operation_id"@)) {
                    (Some(resume), Some(operation_id)) => if uuid_accepts(operation_id) {
                        Ok(
                            RequestView {
                                path: path_of(payload)->Some_0,
                                requested_base_ref: requested,
                                base_ref,
                                resume_project_id: resume,
                                operation_id,
                            },
                        )
                    } else {
                        Err(("invalid_request"@, Some(base_ref)))
                    },
                    _ => Err(("invalid_request"@, Some(base_ref))),
                }
            },
        }
    }
}

/// The path that a payload asks for, where it is usable text.
pub fn requested_path(payload: &JsonValue) -> (path: Option<&str>)
    ensures
        text::str_of(path) == path_of(payload@),
{
    match payload.text_field("path") {
        Some(path) => if !path.is_empty() && !has_char(path, '\0') {
            Some(path)
        } else {
            None
        },
        None => None,
    }
}

fn requested_base_ref(payload: &JsonValue) -> (requested: Option<Option<&str>>)
    ensures
        match requested {
            None => base_ref_of(payload@) is None,
            Some(held) => base_ref_of(payload@) == Some(text::str_of(held)),
        },
{
    match payload.get("base_ref") {
        Some(JsonValue::Null) => Some(None),
        Some(JsonValue::Text(held)) => {
            let value = held.as_str();
            if !trim(value).is_empty() && byte_count(value) <= MAX_BASE_REF_BYTES && !has_char(
                value,
                '\0',
            ) {
                Some(Some(value))
            } else {
                None
            }
        },
        _ => None,
    }
}

fn requested_resume(payload: &JsonValue) -> (requested: Option<Option<&str>>)
    ensures
        match requested {
            None => resume_of(payload@) is None,
            Some(held) => resume_of(payload@) == Some(text::str_of(held)),
        },
{
    match payload.get("resume_project_id") {
        Some(JsonValue::Null) => Some(None),
        Some(JsonValue::Text(held)) => if !trim(held.as_str()).is_empty() {
            Some(Some(held.as_str()))
        } else {
            None
        },
        _ => None,
    }
}

/// Reads a request out of its payload.
pub fn parse_request(payload: &JsonValue, absolute: bool) -> (result: Result<
    PrepareRequest,
    RequestRefusal,
>)
    ensures
        match result {
            Ok(request) => request_of(payload@, absolute) == Ok::<
                RequestView,
                (Seq<char>, Option<Seq<char>>),
            >(request@),
            Err(refusal) => request_of(payload@, absolute) == Err::<
                RequestView,
                (Seq<char>, Option<Seq<char>>),
            >((refusal.kind@, text::text_of(refusal.base_ref))),
        },
{
    let whole = match payload {
        JsonValue::Object(fields) => {
            proof {
                json::lemma_object_view(*fields);
            }
            fields.len() == 4
        },
        _ => false,
    };
    if !whole {
        return Err(RequestRefusal { kind: "invalid_request", base_ref: None });
    }
    let path = match requested_path(payload) {
        Some(path) => path,
        None => {
            return Err(RequestRefusal { kind: "invalid_project_path", base_ref: None });
        },
    };
    if !absolute {
        return Err(RequestRefusal { kind: "invalid_project_path", base_ref: None });
    }
    let requested = match requested_base_ref(payload) {
        Some(requested) => requested,
        None => {
            return Err(RequestRefusal { kind: "invalid_base_ref", base_ref: None });
        },
    };
    let base_ref = match requested {
        Some(held) => held,
        None => "HEAD",
    };
    let resume = match requested_resume(payload) {
        Some(resume) => resume,
        None => {
            return Err(
                RequestRefusal { kind: "invalid_request", base_ref: Some(base_ref.to_owned()) },
            );
        },
    };
    let operation_id = match payload.text_field("operation_id") {
        Some(operation_id) => operation_id,
        None => {
            return Err(
                RequestRefusal { kind: "invalid_request", base_ref: Some(base_ref.to_owned()) },
            );
        },
    };
    if !is_uuid(operation_id) {
        return Err(
            RequestRefusal { kind: "invalid_request", base_ref: Some(base_ref.to_owned()) },
        );
    }
    Ok(
        PrepareRequest {
            path: path.to_owned(),
            requested_base_ref: own_text(requested),
            base_ref: base_ref.to_owned(),
            resume_project_id: own_text(resume),
            operation_id: operation_id.to_owned(),
        },
    )
}

/// The payload of a request as a document.
pub fn read_payload(payload: &str) -> (document: Option<JsonValue>)
    ensures
        json::json_of(document) == json::parsed_json(payload@),
{
    parse_json(payload)
}

// ---- The managed root --------------------------------------------------------

/// An allowed root of the policy, as seen from a source repository.
#[derive(Debug)]
pub struct AllowedRoot {
    /// Number of path components of the root.
    pub components: usize,
    /// Whether the source lies within the root.
    pub holds_source: bool,
    /// The directory for managed worktrees below the root.
    pub candidate: String,
    /// Whether that directory lies within the source.
    pub candidate_in_source: bool,
}

/// The directory for managed worktrees beside a source repository.
#[derive(Debug)]
pub struct SiblingRoot {
    pub candidate: String,
    pub candidate_in_source: bool,
}

/// What the policy and the disk offer for managed worktrees.
#[derive(Debug)]
pub struct RootChoice {
    pub roots: Vec<AllowedRoot>,
    pub allow_cwd_anywhere: bool,
    /// The directory beside the source, where the source has a parent.
    pub sibling: Option<SiblingRoot>,
}

/// Whether managed worktrees of the source may live below a root.
pub open spec fn eligible(root: AllowedRoot) -> bool {
    root.holds_source && !root.candidate_in_source
}

/// Whether `i` is the deepest eligible root, the first of those equally deep.
pub open spec fn is_deepest(roots: Seq<AllowedRoot>, i: int) -> bool {
    &&& 0 <= i < roots.len()
    &&& eligible(roots[i])
    &&& forall|j: int|
        0 <= j < roots.len() && eligible(#[trigger] roots[j]) ==> roots[j].components
            < roots[i].components || (roots[j].components == roots[i].components && i <= j)
}

/// Whether no root is eligible.
pub open spec fn none_eligible(roots: Seq<AllowedRoot>) -> bool {
    forall|j: int| 0 <= j < roots.len() ==> !eligible(#[trigger] roots[j])
}

/// The directory for managed worktrees: below the deepest eligible root, else
/// beside the source where the policy allows any directory.
pub open spec fn chosen_root(choice: RootChoice) -> Option<Seq<char>> {
    if none_eligible(choice.roots@) {
        match choice.sibling {
            Some(sibling) => if choice.allow_cwd_anywhere && !sibling.candidate_in_source {
                Some(sibling.candidate@)
            } else {
                None
            },
            None => None,
        }
    } else {
        Some(choice.roots@[choose|i: int| is_deepest(choice.roots@, i)].candidate@)
    }
}

proof fn lemma_deepest_is_unique(roots: Seq<AllowedRoot>, a: int, b: int)
    requires
        is_deepest(roots, a),
        is_deepest(roots, b),
    ensures
        a == b,
{
    assert(eligible(roots[a]) && eligible(roots[b]));
}

/// Chooses the directory for managed worktrees.
pub fn choose_managed_worktree_root(choice: &RootChoice) -> (root: Option<String>)
    ensures
        text::text_of(root) == chosen_root(*choice),
{
    let roots = &choice.roots;
    let mut best: Option<usize> = None;
    let mut i: usize = 0;
    while i < roots.len()
        invariant
            roots == &choice.roots,
            i <= roots@.len(),
            match best {
                None => forall|j: int| 0 <= j < i ==> !eligible(#[trigger] roots@[j]),
                Some(at) => at < i && eligible(roots@[at as int]) && forall|j: int|
                    0 <= j < i && eligible(#[trigger] roots@[j]) ==> roots@[j].components
                        < roots@[at as int].components || (roots@[j].components
                        == roots@[at as int].components && at <= j),
            },
        decreases roots@.len() - i,
    {
        let root = &roots[i];
        if root.holds_source && !root.candidate_in_source {
            match best {
                None => {
                    best = Some(i);
                },
                Some(at) => {
                    if root.components > roots[at].components {
                        best = Some(i);
                    }
                },
            }
        }
        i = i + 1;
    }
    match best {
        Some(at) => {
            proof {
                assert(is_deepest(roots@, at as int));
                lemma_deepest_is_unique(
                    roots@,
                    at as int,
                    choose|i: int| is_deepest(choice.roots@, i),
                );
            }
            Some(roots[at].candidate.clone())
        },
        None => match &choice.sibling {
            Some(sibling) => if choice.allow_cwd_anywhere && !sibling.candidate_in_source {
                Some(sibling.candidate.clone())
            } else {
                None
            },
            None => None,
        },
    }
}

/// A directory that was chosen never lies within the source repository.
pub proof fn law_managed_root_is_outside_the_source(choice: RootChoice)
    ensures
        chosen_root(choice) matches Some(path) ==> {
            ||| exists|i: int|
                0 <= i < choice.roots@.len() && (#[trigger] choice.roots@[i]).candidate@ == path
                    && choice.roots@[i].holds_source && !choice.roots@[i].candidate_in_source
            ||| choice.sibling matches Some(sibling) && sibling.candidate@ == path
                && !sibling.candidate_in_source
        },
{
    if !none_eligible(choice.roots@) {
        lemma_deepest_exists(choice.roots@);
        let i = choose|i: int| is_deepest(choice.roots@, i);
        assert(eligible(choice.roots@[i]));
    }
}

proof fn lemma_deepest_exists(roots: Seq<AllowedRoot>)
    requires
        !none_eligible(roots),
    ensures
        exists|i: int| is_deepest(roots, i),
    decreases roots.len(),
{
    let front = roots.drop_last();
    let last = roots.len() - 1;
    if none_eligible(front) {
        assert forall|j: int| 0 <= j < last implies !eligible(#[trigger] roots[j]) by {
            assert(front[j] == roots[j]);
        }
        assert(is_deepest(roots, last));
    } else {
        lemma_deepest_exists(front);
        let i = choose|i: int| is_deepest(front, i);
        assert(front[i] == roots[i]);
        assert forall|j: int| 0 <= j < last && eligible(#[trigger] roots[j]) implies roots[j].components
            < roots[i].components || (roots[j].components == roots[i].components && i <= j) by {
            assert(front[j] == roots[j]);
        }
        if eligible(roots[last]) && roots[last].components > roots[i].components {
            assert(is_deepest(roots, last));
        } else {
            assert(is_deepest(roots, i));
        }
    }
}

/// A request holds what its payload says, each part from the field of its name:
/// the path, the project to resume where one is named, the operation, and the base
/// reference, which is the one that was requested and the head where none was.
pub proof fn law_request_is_what_the_payload_says(payload: json::JsonView, absolute: bool)
    ensures
        request_of(payload, absolute) matches Ok(request) ==> {
            &&& absolute
            &&& payload.get("path"@) == Some(json::JsonView::Text(request.path))
            &&& payload.get("operation_id"@) == Some(json::JsonView::Text(request.operation_id))
            &&& payload.get("base_ref"@) matches Some(json::JsonView::Text(asked))
                ==> request.base_ref == asked && request.requested_base_ref == Some(asked)
            &&& payload.get("base_ref"@) == Some(json::JsonView::Null) ==> request.base_ref
                == "HEAD"@ && request.requested_base_ref is None
            &&& payload.get("base_ref"@) matches Some(held) && (held is Text || held is Null)
            &&& payload.get("resume_project_id"@) matches Some(json::JsonView::Text(id))
                ==> request.resume_project_id == Some(id)
            &&& payload.get("resume_project_id"@) == Some(json::JsonView::Null)
                ==> request.resume_project_id is None
            &&& payload.get("resume_project_id"@) matches Some(held) && (held is Text || held
                is Null)
        },
{
}

/// A request of four fields with a path that is absolute, a base reference that can
/// be used or none, a project to resume or none and an operation that is a UUID is
/// accepted.
pub proof fn law_sound_request_is_accepted(
    payload: json::JsonView,
    path: Seq<char>,
    base_ref: json::JsonView,
    resume: json::JsonView,
    operation_id: Seq<char>,
)
    requires
        payload matches json::JsonView::Object(fields) && fields.len() == 4,
        payload.get("path"@) == Some(json::JsonView::Text(path)),
        payload.get("base_ref"@) == Some(base_ref),
        payload.get("resume_project_id"@) == Some(resume),
        payload.get("operation_id"@) == Some(json::JsonView::Text(operation_id)),
        path.len() > 0 && !path.contains('\0'),
        base_ref is Null || (base_ref matches json::JsonView::Text(asked) && text::trimmed(
            asked,
        ).len() > 0 && text::byte_len(asked) <= 1024 && !asked.contains('\0')),
        resume is Null || (resume matches json::JsonView::Text(id) && text::trimmed(id).len() > 0),
        uuid_accepts(operation_id),
    ensures
        request_of(payload, true) is Ok,
        request_of(payload, false) == Err::<RequestView, (Seq<char>, Option<Seq<char>>)>(
            ("invalid_project_path"@, None),
        ),
{
}

/// What is refused, and as what: a payload that is not an object of four fields; a
/// path that is missing, empty or holds a null character, or is not absolute; a
/// base reference that is no text and not null, blank, too long or holds a null
/// character; and, with the base reference that is known by then, a project to
/// resume that is blank or an operation that is no UUID.
pub proof fn law_unsound_request_is_refused(payload: json::JsonView, absolute: bool)
    ensures
        !(payload is Object) || (payload->Object_0).len() != 4 ==> request_of(payload, absolute)
            == Err::<RequestView, (Seq<char>, Option<Seq<char>>)>(("invalid_request"@, None)),
        payload is Object && (payload->Object_0).len() == 4 && (payload.text_field("path"@) is None
            || (payload.text_field("path"@)->Some_0).len() == 0 || (payload.text_field(
            "path"@,
        )->Some_0).contains('\0')) ==> request_of(payload, absolute) == Err::<
            RequestView,
            (Seq<char>, Option<Seq<char>>),
        >(("invalid_project_path"@, None)),
        request_of(payload, absolute) matches Ok(request) ==> {
            &&& request.path.len() > 0 && !request.path.contains('\0')
            &&& request.requested_base_ref matches Some(asked) ==> text::trimmed(asked).len() > 0
                && text::byte_len(asked) <= 1024 && !asked.contains('\0')
            &&& request.resume_project_id matches Some(id) ==> text::trimmed(id).len() > 0
            &&& uuid_accepts(request.operation_id)
        },
        request_of(payload, absolute) matches Err(refusal) ==> {
            &&& refusal.0 == "invalid_request"@ || refusal.0 == "invalid_project_path"@ || refusal.0
                == "invalid_base_ref"@
            &&& refusal.1 matches Some(known) ==> refusal.0 == "invalid_request"@ && (payload.get(
                "base_ref"@,
            ) == Some(json::JsonView::Text(known)) || (payload.get("base_ref"@) == Some(
                json::JsonView::Null,
            ) && known == "HEAD"@))
            &&& refusal.0 == "invalid_base_ref"@ ==> !(payload.get("base_ref"@) == Some(
                json::JsonView::Null,
            ))
        },
{
    reveal_strlit("invalid_request");
    reveal_strlit("invalid_project_path");
    reveal_strlit("invalid_base_ref");
    assert("invalid_request"@.len() == 15);
    assert("invalid_project_path"@.len() == 20);
    assert("invalid_base_ref"@.len() == 16);
}

/// A UUID is thirty-two hexadecimal digits, or the same with hyphens in their four
/// places; the hyphenated form may stand in braces or behind the prefix of a URN,
/// and nothing else is one.
pub proof fn law_uuid_has_one_of_four_forms(held: Seq<char>)
    ensures
        uuid_accepts(held) ==> held.len() == 32 || held.len() == 36 || held.len() == 38
            || held.len() == 45,
        held.len() == 32 ==> (uuid_accepts(held) <==> text::all_hex(held)),
        held.len() == 36 ==> (uuid_accepts(held) <==> held[8] == '-' && held[13] == '-' && held[18]
            == '-' && held[23] == '-' && text::all_hex(held.subrange(0, 8)) && text::all_hex(
            held.subrange(9, 13),
        ) && text::all_hex(held.subrange(14, 18)) && text::all_hex(held.subrange(19, 23))
            && text::all_hex(held.subrange(24, 36))),
        held.len() == 38 ==> (uuid_accepts(held) <==> held[0] == '{' && held[37] == '}'
            && uuid_accepts(held.subrange(1, 37))),
        held.len() == 45 && text::begins_with(held, "urn:uuid:"@) ==> (uuid_accepts(held)
            <==> uuid_accepts(held.skip(9))),
{
    if held.len() == 36 {
        lemma_hyphenated(held);
    }
    if held.len() == 45 && text::begins_with(held, "urn:uuid:"@) {
        reveal_strlit("urn:uuid:");
        let prefix = "urn:uuid:"@;
        assert(text::ascii_lowered(held.take(9)) =~= prefix) by {
            assert forall|i: int| 0 <= i < 9 implies text::ascii_small(#[trigger] held.take(9)[i])
                == prefix[i] by {
                assert(held.take(9)[i] == prefix[i]);
            }
        }
    }
}

proof fn lemma_hyphenated(held: Seq<char>)
    requires
        held.len() == 36,
    ensures
        is_hyphenated(held) <==> held[8] == '-' && held[13] == '-' && held[18] == '-' && held[23]
            == '-' && text::all_hex(held.subrange(0, 8)) && text::all_hex(held.subrange(9, 13))
            && text::all_hex(held.subrange(14, 18)) && text::all_hex(held.subrange(19, 23))
            && text::all_hex(held.subrange(24, 36)),
{
    if is_hyphenated(held) {
        assert(held[8] == '-' && held[13] == '-' && held[18] == '-' && held[23] == '-');
        assert(text::all_hex(held.subrange(0, 8)));
        assert(text::all_hex(held.subrange(9, 13)));
        assert(text::all_hex(held.subrange(14, 18)));
        assert(text::all_hex(held.subrange(19, 23)));
        assert(text::all_hex(held.subrange(24, 36)));
    }
    if held[8] == '-' && held[13] == '-' && held[18] == '-' && held[23] == '-' && text::all_hex(
        held.subrange(0, 8),
    ) && text::all_hex(held.subrange(9, 13)) && text::all_hex(held.subrange(14, 18))
        && text::all_hex(held.subrange(19, 23)) && text::all_hex(held.subrange(24, 36)) {
        assert forall|i: int| 0 <= i < 36 implies if i == 8 || i == 13 || i == 18 || i == 23 {
            #[trigger] held[i] == '-'
        } else {
            text::is_hex_digit(held[i])
        } by {
            if i < 8 {
                assert(text::is_hex_digit(held.subrange(0, 8)[i]));
            } else if 8 < i < 13 {
                assert(text::is_hex_digit(held.subrange(9, 13)[i - 9]));
            } else if 13 < i < 18 {
                assert(text::is_hex_digit(held.subrange(14, 18)[i - 14]));
            } else if 18 < i < 23 {
                assert(text::is_hex_digit(held.subrange(19, 23)[i - 19]));
            } else if 23 < i {
                assert(text::is_hex_digit(held.subrange(24, 36)[i - 24]));
            }
        }
    }
}

/// The directory for managed worktrees is the one of the deepest allowed root that
/// holds the source and whose directory is not in it, the first of several; only
/// where there is no such root, and the policy lets anything run anywhere, is it the
/// one beside the source.
pub proof fn law_managed_root_is_the_deepest(choice: RootChoice, i: int)
    requires
        0 <= i < choice.roots@.len(),
        choice.roots@[i].holds_source && !choice.roots@[i].candidate_in_source,
    ensures
        (forall|j: int|
            0 <= j < choice.roots@.len() && (#[trigger] choice.roots@[j]).holds_source
                && !choice.roots@[j].candidate_in_source && j != i ==> choice.roots@[j].components
                < choice.roots@[i].components || (choice.roots@[j].components
                == choice.roots@[i].components && i < j)) ==> chosen_root(choice) == Some(
            choice.roots@[i].candidate@,
        ),
        chosen_root(choice) is Some,
{
    assert(eligible(choice.roots@[i]));
    lemma_deepest_exists(choice.roots@);
    let found = choose|k: int| is_deepest(choice.roots@, k);
    assert(eligible(choice.roots@[found]));
    if forall|j: int|
        0 <= j < choice.roots@.len() && (#[trigger] choice.roots@[j]).holds_source
            && !choice.roots@[j].candidate_in_source && j != i ==> choice.roots@[j].components
            < choice.roots@[i].components || (choice.roots@[j].components
            == choice.roots@[i].components && i < j) {
        assert(found == i);
    }
}

/// Where no allowed root holds the source outside of it, the directory beside the
/// source is taken exactly where the policy permits it and it is not in the source.
pub proof fn law_sibling_root_needs_the_policy(choice: RootChoice)
    requires
        forall|j: int|
            0 <= j < choice.roots@.len() ==> !(#[trigger] choice.roots@[j]).holds_source
                || choice.roots@[j].candidate_in_source,
    ensures
        choice.allow_cwd_anywhere ==> (choice.sibling matches Some(sibling)
            ==> !sibling.candidate_in_source ==> chosen_root(choice) == Some(sibling.candidate@)),
        !choice.allow_cwd_anywhere ==> chosen_root(choice) is None,
        choice.sibling is None ==> chosen_root(choice) is None,
        choice.sibling matches Some(sibling) ==> sibling.candidate_in_source ==> chosen_root(choice)
            is None,
{
    assert(none_eligible(choice.roots@));
}

} // verus!
