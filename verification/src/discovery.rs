//! The compact copy that a tool listing shows. Only the listing is shortened:
//! what a tool takes and how it behaves stays with its definition.
use vstd::prelude::*;

use crate::json;
use crate::json::{set_field, text_value, JsonValue, JsonView};
use crate::text;
use crate::text::{chars_of, is_whitespace, same_text, text_from_chars, trim, trim_end};

verus! {

/// Most characters of a listed tool's description.
pub const TOOL_DESCRIPTION_MAX_CHARS: usize = 420;

/// Most characters of a description inside a listed input schema.
pub const INPUT_DESCRIPTION_MAX_CHARS: usize = 180;

// ---- Bounding one description ------------------------------------------

/// Whether a sentence of `text` ends with its first `end` characters: the last
/// of them is a full stop or its like, and white space or nothing follows.
pub open spec fn ends_sentence(text: Seq<char>, end: int) -> bool {
    &&& 0 < end <= text.len()
    &&& text[end - 1] == '.' || text[end - 1] == '!' || text[end - 1] == '?'
    &&& end == text.len() || text::is_white_space(text[end])
}

/// The longest start of `text`, of at most `most` characters, that ends with a
/// sentence; 0 where there is none.
pub open spec fn last_sentence_end(text: Seq<char>, most: nat) -> nat
    decreases most,
{
    if most == 0 || ends_sentence(text, most as int) {
        most
    } else {
        last_sentence_end(text, (most - 1) as nat)
    }
}

/// The index of the last white space among the first `most` characters behind
/// the first one; `None` where there is none.
pub open spec fn last_gap(text: Seq<char>, most: nat) -> Option<nat>
    decreases most,
{
    if most <= 1 {
        None
    } else if text::is_white_space(text[most - 1]) {
        Some((most - 1) as nat)
    } else {
        last_gap(text, (most - 1) as nat)
    }
}

/// `description` in at most `max_chars` characters: whole where it fits, else
/// its complete sentences that fit, else its words that fit and an ellipsis.
pub open spec fn bounded(description: Seq<char>, max_chars: nat) -> Seq<char> {
    let whole = text::trimmed(description);
    if whole.len() <= max_chars {
        whole
    } else {
        let room = (max_chars - 1) as nat;
        let sentences = last_sentence_end(whole, room);
        if sentences > 0 {
            whole.take(sentences as int)
        } else {
            let words = match last_gap(whole, room) {
                Some(gap) => gap,
                None => room,
            };
            text::trimmed_end(whole.take(words as int)).push('…')
        }
    }
}

proof fn lemma_last_sentence_end(text: Seq<char>, most: nat)
    ensures
        last_sentence_end(text, most) <= most,
        last_sentence_end(text, most) > 0 ==> ends_sentence(
            text,
            last_sentence_end(text, most) as int,
        ),
    decreases most,
{
    if most > 0 && !ends_sentence(text, most as int) {
        lemma_last_sentence_end(text, (most - 1) as nat);
    }
}

proof fn lemma_last_gap(text: Seq<char>, most: nat)
    ensures
        last_gap(text, most) matches Some(gap) ==> 0 < gap < most,
    decreases most,
{
    if most > 1 {
        lemma_last_gap(text, (most - 1) as nat);
    }
}

/// A bounded description has no more characters than it may have.
pub proof fn law_description_is_bounded(description: Seq<char>, max_chars: nat)
    requires
        max_chars > 0,
    ensures
        bounded(description, max_chars).len() <= max_chars,
{
    let whole = text::trimmed(description);
    if whole.len() > max_chars {
        let room = (max_chars - 1) as nat;
        lemma_last_sentence_end(whole, room);
        lemma_last_gap(whole, room);
        let words = match last_gap(whole, room) {
            Some(gap) => gap,
            None => room,
        };
        text::lemma_trimmed_end_tail(whole.take(words as int));
    }
}

/// Bounding a description a second time leaves it as it is.
pub proof fn law_bounding_is_settled(description: Seq<char>, max_chars: nat)
    requires
        max_chars > 0,
    ensures
        bounded(bounded(description, max_chars), max_chars) == bounded(description, max_chars),
{
    let whole = text::trimmed(description);
    let result = bounded(description, max_chars);
    law_description_is_bounded(description, max_chars);
    text::lemma_trimmed_ends(description);
    if whole.len() > max_chars {
        let room = (max_chars - 1) as nat;
        lemma_last_sentence_end(whole, room);
        lemma_last_gap(whole, room);
        let words = match last_gap(whole, room) {
            Some(gap) => gap,
            None => room,
        };
        text::lemma_trimmed_end_tail(whole.take(words as int));
    }
    text::lemma_trimmed_unchanged(result);
}

/// A description that has a sentence to end with is cut at a sentence and
/// nowhere else.
pub proof fn law_sentences_are_kept_whole(description: Seq<char>, max_chars: nat, end: int)
    requires
        text::trimmed(description).len() > max_chars,
        0 < end < max_chars,
        ends_sentence(text::trimmed(description), end),
    ensures
        ends_sentence(
            text::trimmed(description),
            bounded(description, max_chars).len() as int,
        ),
        end <= bounded(description, max_chars).len(),
        text::begins_with(text::trimmed(description), bounded(description, max_chars)),
{
    let whole = text::trimmed(description);
    lemma_sentence_found(whole, (max_chars - 1) as nat, end);
    lemma_last_sentence_end(whole, (max_chars - 1) as nat);
}

proof fn lemma_sentence_found(text: Seq<char>, most: nat, end: int)
    requires
        0 < end <= most,
        ends_sentence(text, end),
    ensures
        last_sentence_end(text, most) >= end,
    decreases most,
{
    if !ends_sentence(text, most as int) {
        lemma_sentence_found(text, (most - 1) as nat, end);
    }
}

/// Bounds a description to `max_chars` characters. Full stops inside names,
/// versions and keys are no ends of sentences.
pub fn bound_description(description: &str, max_chars: usize) -> (kept: String)
    requires
        max_chars > 0 || text::trimmed(description@).len() == 0,
    ensures
        kept@ == bounded(description@, max_chars as nat),
{
    let whole = trim(description);
    let chars = chars_of(whole);
    if chars.len() <= max_chars {
        return whole.to_owned();
    }
    let room: usize = max_chars - 1;
    let mut end: usize = room;
    while end > 0
        invariant
            end <= room,
            max_chars < chars@.len(),
            room == max_chars - 1,
            chars@ == whole@,
            whole@ == text::trimmed(description@),
            last_sentence_end(whole@, room as nat) == last_sentence_end(
                whole@,
                end as nat,
            ),
        decreases end,
    {
        let last: char = chars[end - 1];
        if (last == '.' || last == '!' || last == '?') && is_whitespace(chars[end]) {
            let kept = text_from_chars(&chars, 0, end);
            assert(ends_sentence(whole@, end as int));
            assert(kept@ =~= whole@.take(end as int));
            return kept;
        }
        end = end - 1;
    }
    let mut words: usize = room;
    while words > 1 && !is_whitespace(chars[words - 1])
        invariant
            words <= room < chars@.len(),
            chars@ == whole@,
            last_gap(whole@, room as nat) == last_gap(whole@, words as nat),
        decreases words,
    {
        words = words - 1;
    }
    let end: usize = if words > 1 {
        words - 1
    } else {
        room
    };
    let prefix = text_from_chars(&chars, 0, end);
    assert(prefix@ =~= whole@.take(end as int));
    let mut kept = trim_end(prefix.as_str()).to_owned();
    kept.push('…');
    kept
}

// ---- Bounding the descriptions of a schema -----------------------------

/// Whether the value of `key` in a schema maps names to schemas.
pub open spec fn maps_to_schemas(key: Seq<char>) -> bool {
    ||| key == "properties"@
    ||| key == "patternProperties"@
    ||| key == "$defs"@
    ||| key == "definitions"@
    ||| key == "dependentSchemas"@
    ||| key == "dependencies"@
}

/// Whether the value of `key` in a schema is a schema or a list of schemas.
pub open spec fn holds_schemas(key: Seq<char>) -> bool {
    ||| key == "items"@
    ||| key == "prefixItems"@
    ||| key == "allOf"@
    ||| key == "anyOf"@
    ||| key == "oneOf"@
    ||| key == "additionalItems"@
    ||| key == "additionalProperties"@
    ||| key == "unevaluatedItems"@
    ||| key == "unevaluatedProperties"@
    ||| key == "propertyNames"@
    ||| key == "contains"@
    ||| key == "not"@
    ||| key == "if"@
    ||| key == "then"@
    ||| key == "else"@
}

/// A schema with each of its descriptions rewritten. Only places where a schema
/// stands are looked at: a constant, a default, an enumeration or an example
/// may hold data of its own under the key `description`.
pub open spec fn rewritten(schema: JsonView, copy: spec_fn(Seq<char>) -> Seq<char>) -> JsonView
    decreases schema, 1int,
{
    match schema {
        JsonView::Object(fields) => JsonView::Object(
            Seq::new(
                fields.len(),
                |i: int|
                    if 0 <= i < fields.len() {
                        (fields[i].0, rewritten_keyword(fields[i].0, fields[i].1, copy))
                    } else {
                        (Seq::empty(), JsonView::Null)
                    },
            ),
        ),
        _ => schema,
    }
}

/// The value of `key` in a schema whose descriptions are rewritten.
pub open spec fn rewritten_keyword(
    key: Seq<char>,
    value: JsonView,
    copy: spec_fn(Seq<char>) -> Seq<char>,
) -> JsonView
    decreases value, 3int,
{
    if key == "description"@ {
        match value {
            JsonView::Text(description) => JsonView::Text(copy(description)),
            _ => value,
        }
    } else if maps_to_schemas(key) {
        rewritten_children(value, copy)
    } else if holds_schemas(key) {
        rewritten_items(value, copy)
    } else {
        value
    }
}

/// A map from names to schemas, each with its descriptions rewritten.
pub open spec fn rewritten_children(
    value: JsonView,
    copy: spec_fn(Seq<char>) -> Seq<char>,
) -> JsonView
    decreases value, 2int,
{
    match value {
        JsonView::Object(fields) => JsonView::Object(
            Seq::new(
                fields.len(),
                |i: int|
                    if 0 <= i < fields.len() {
                        (fields[i].0, rewritten(fields[i].1, copy))
                    } else {
                        (Seq::empty(), JsonView::Null)
                    },
            ),
        ),
        _ => value,
    }
}

/// A schema or a list of schemas, each with its descriptions rewritten.
pub open spec fn rewritten_items(
    value: JsonView,
    copy: spec_fn(Seq<char>) -> Seq<char>,
) -> JsonView
    decreases value, 2int,
{
    match value {
        JsonView::Array(items) => JsonView::Array(
            Seq::new(
                items.len(),
                |i: int|
                    if 0 <= i < items.len() {
                        rewritten(items[i], copy)
                    } else {
                        JsonView::Null
                    },
            ),
        ),
        _ => rewritten(value, copy),
    }
}

/// The bounded form of a description inside a schema.
pub open spec fn input_copy() -> spec_fn(Seq<char>) -> Seq<char> {
    |description: Seq<char>| bounded(description, INPUT_DESCRIPTION_MAX_CHARS as nat)
}

/// A schema with each of its descriptions bounded.
pub open spec fn compacted(schema: JsonView) -> JsonView {
    rewritten(schema, input_copy())
}

proof fn lemma_rewritten_twice(
    schema: JsonView,
    first: spec_fn(Seq<char>) -> Seq<char>,
    second: spec_fn(Seq<char>) -> Seq<char>,
    both: spec_fn(Seq<char>) -> Seq<char>,
)
    requires
        forall|description: Seq<char>| #[trigger]
            both(description) == second(first(description)),
    ensures
        rewritten(rewritten(schema, first), second) == rewritten(schema, both),
    decreases schema, 1int,
{
    if let JsonView::Object(fields) = schema {
        let once = rewritten(schema, first)->Object_0;
        let twice = rewritten(rewritten(schema, first), second)->Object_0;
        let direct = rewritten(schema, both)->Object_0;
        assert forall|i: int| 0 <= i < fields.len() implies #[trigger] twice[i] == direct[i] by {
            assert(decreases_to!(schema => schema->Object_0[i].1));
            lemma_keyword_twice(fields[i].0, fields[i].1, first, second, both);
            assert(once[i] == (
                fields[i].0,
                rewritten_keyword(fields[i].0, fields[i].1, first),
            ));
        }
        assert(twice =~= direct);
    }
}

proof fn lemma_keyword_twice(
    key: Seq<char>,
    value: JsonView,
    first: spec_fn(Seq<char>) -> Seq<char>,
    second: spec_fn(Seq<char>) -> Seq<char>,
    both: spec_fn(Seq<char>) -> Seq<char>,
)
    requires
        forall|description: Seq<char>| #[trigger]
            both(description) == second(first(description)),
    ensures
        rewritten_keyword(key, rewritten_keyword(key, value, first), second) == rewritten_keyword(
            key,
            value,
            both,
        ),
    decreases value, 3int,
{
    lemma_children_twice(value, first, second, both);
    lemma_items_twice(value, first, second, both);
}

proof fn lemma_children_twice(
    value: JsonView,
    first: spec_fn(Seq<char>) -> Seq<char>,
    second: spec_fn(Seq<char>) -> Seq<char>,
    both: spec_fn(Seq<char>) -> Seq<char>,
)
    requires
        forall|description: Seq<char>| #[trigger]
            both(description) == second(first(description)),
    ensures
        rewritten_children(rewritten_children(value, first), second) == rewritten_children(
            value,
            both,
        ),
    decreases value, 2int,
{
    if let JsonView::Object(fields) = value {
        let once = rewritten_children(value, first)->Object_0;
        let twice = rewritten_children(rewritten_children(value, first), second)->Object_0;
        let direct = rewritten_children(value, both)->Object_0;
        assert forall|i: int| 0 <= i < fields.len() implies #[trigger] twice[i] == direct[i] by {
            assert(decreases_to!(value => value->Object_0[i].1));
            lemma_rewritten_twice(fields[i].1, first, second, both);
            assert(once[i] == (fields[i].0, rewritten(fields[i].1, first)));
        }
        assert(twice =~= direct);
    }
}

proof fn lemma_items_twice(
    value: JsonView,
    first: spec_fn(Seq<char>) -> Seq<char>,
    second: spec_fn(Seq<char>) -> Seq<char>,
    both: spec_fn(Seq<char>) -> Seq<char>,
)
    requires
        forall|description: Seq<char>| #[trigger]
            both(description) == second(first(description)),
    ensures
        rewritten_items(rewritten_items(value, first), second) == rewritten_items(value, both),
    decreases value, 2int,
{
    if let JsonView::Array(items) = value {
        let once = rewritten_items(value, first)->Array_0;
        let twice = rewritten_items(rewritten_items(value, first), second)->Array_0;
        let direct = rewritten_items(value, both)->Array_0;
        assert forall|i: int| 0 <= i < items.len() implies #[trigger] twice[i] == direct[i] by {
            assert(decreases_to!(value => value->Array_0[i]));
            lemma_rewritten_twice(items[i], first, second, both);
            assert(once[i] == rewritten(items[i], first));
        }
        assert(twice =~= direct);
    } else {
        lemma_rewritten_twice(value, first, second, both);
        assert(rewritten(value, first) is Array == value is Array);
    }
}

/// Compacting a schema a second time leaves it as it is.
pub proof fn law_compacting_is_settled(schema: JsonView)
    ensures
        compacted(compacted(schema)) == compacted(schema),
{
    assert forall|description: Seq<char>| #[trigger]
        input_copy()(description) == input_copy()(input_copy()(description)) by {
        law_bounding_is_settled(description, INPUT_DESCRIPTION_MAX_CHARS as nat);
    }
    lemma_rewritten_twice(schema, input_copy(), input_copy(), input_copy());
}

/// Compacting a schema changes its descriptions and nothing else: with the
/// descriptions left blank, the schema before and after is the same.
pub proof fn law_only_descriptions_change(schema: JsonView)
    ensures
        ({
            let blank = |description: Seq<char>| Seq::<char>::empty();
            rewritten(compacted(schema), blank) == rewritten(schema, blank)
        }),
{
    let blank = |description: Seq<char>| Seq::<char>::empty();
    lemma_rewritten_twice(schema, input_copy(), blank, blank);
}

/// No description of a compacted schema is longer than it may be: cutting
/// each one off at the limit changes nothing.
pub proof fn law_compacted_descriptions_fit(schema: JsonView)
    ensures
        ({
            let cut = |description: Seq<char>|
                if description.len() > INPUT_DESCRIPTION_MAX_CHARS {
                    description.take(INPUT_DESCRIPTION_MAX_CHARS as int)
                } else {
                    description
                };
            rewritten(compacted(schema), cut) == compacted(schema)
        }),
{
    let cut = |description: Seq<char>|
        if description.len() > INPUT_DESCRIPTION_MAX_CHARS {
            description.take(INPUT_DESCRIPTION_MAX_CHARS as int)
        } else {
            description
        };
    assert forall|description: Seq<char>| #[trigger]
        input_copy()(description) == cut(input_copy()(description)) by {
        law_description_is_bounded(description, INPUT_DESCRIPTION_MAX_CHARS as nat);
    }
    lemma_rewritten_twice(schema, input_copy(), cut, input_copy());
}

fn names_schema_map(key: &str) -> (found: bool)
    ensures
        found == maps_to_schemas(key@),
{
    same_text(key, "properties")
        || same_text(key, "patternProperties")
        || same_text(key, "$defs")
        || same_text(key, "definitions")
        || same_text(key, "dependentSchemas")
        || same_text(key, "dependencies")
}

fn names_schemas(key: &str) -> (found: bool)
    ensures
        found == holds_schemas(key@),
{
    same_text(key, "items")
        || same_text(key, "prefixItems")
        || same_text(key, "allOf")
        || same_text(key, "anyOf")
        || same_text(key, "oneOf")
        || same_text(key, "additionalItems")
        || same_text(key, "additionalProperties")
        || same_text(key, "unevaluatedItems")
        || same_text(key, "unevaluatedProperties")
        || same_text(key, "propertyNames")
        || same_text(key, "contains")
        || same_text(key, "not")
        || same_text(key, "if")
        || same_text(key, "then")
        || same_text(key, "else")
}

fn compact_schema(schema: &JsonValue) -> (compact: JsonValue)
    ensures
        compact@ == compacted(schema@),
    decreases schema, 1int,
{
    match schema {
        JsonValue::Object(fields) => {
            let mut copies: Vec<(String, JsonValue)> = Vec::new();
            let mut i: usize = 0;
            while i < fields.len()
                invariant
                    schema == JsonValue::Object(*fields),
                    i <= fields@.len(),
                    copies@.len() == i,
                    forall|j: int|
                        0 <= j < i ==> #[trigger] copies@[j].0@ == fields@[j].0@ && copies@[j].1@
                            == rewritten_keyword(fields@[j].0@, fields@[j].1@, input_copy()),
                decreases fields@.len() - i,
            {
                assert(decreases_to!(*schema => schema->Object_0@[i as int].1));
                let value = compact_keyword(fields[i].0.as_str(), &fields[i].1);
                copies.push((fields[i].0.clone(), value));
                i = i + 1;
            }
            proof {
                json::lemma_object_view(copies);
                json::lemma_object_view(*fields);
                assert(json::fields_view(copies@) =~= compacted(schema@)->Object_0);
            }
            JsonValue::Object(copies)
        },
        _ => schema.duplicate(),
    }
}

fn compact_keyword(key: &str, value: &JsonValue) -> (compact: JsonValue)
    ensures
        compact@ == rewritten_keyword(key@, value@, input_copy()),
    decreases value, 3int,
{
    if same_text(key, "description") {
        match value {
            JsonValue::Text(description) => JsonValue::Text(
                bound_description(description.as_str(), INPUT_DESCRIPTION_MAX_CHARS),
            ),
            _ => value.duplicate(),
        }
    } else if names_schema_map(key) {
        compact_children(value)
    } else if names_schemas(key) {
        compact_items(value)
    } else {
        value.duplicate()
    }
}

fn compact_children(value: &JsonValue) -> (compact: JsonValue)
    ensures
        compact@ == rewritten_children(value@, input_copy()),
    decreases value, 2int,
{
    match value {
        JsonValue::Object(fields) => {
            let mut copies: Vec<(String, JsonValue)> = Vec::new();
            let mut i: usize = 0;
            while i < fields.len()
                invariant
                    value == JsonValue::Object(*fields),
                    i <= fields@.len(),
                    copies@.len() == i,
                    forall|j: int|
                        0 <= j < i ==> #[trigger] copies@[j].0@ == fields@[j].0@ && copies@[j].1@
                            == compacted(fields@[j].1@),
                decreases fields@.len() - i,
            {
                assert(decreases_to!(*value => value->Object_0@[i as int].1));
                let child = compact_schema(&fields[i].1);
                copies.push((fields[i].0.clone(), child));
                i = i + 1;
            }
            proof {
                json::lemma_object_view(copies);
                json::lemma_object_view(*fields);
                assert(json::fields_view(copies@) =~= rewritten_children(value@, input_copy())->Object_0);
            }
            JsonValue::Object(copies)
        },
        _ => value.duplicate(),
    }
}

fn compact_items(value: &JsonValue) -> (compact: JsonValue)
    ensures
        compact@ == rewritten_items(value@, input_copy()),
    decreases value, 2int,
{
    match value {
        JsonValue::Array(items) => {
            let mut copies: Vec<JsonValue> = Vec::new();
            let mut i: usize = 0;
            while i < items.len()
                invariant
                    value == JsonValue::Array(*items),
                    i <= items@.len(),
                    copies@.len() == i,
                    forall|j: int| 0 <= j < i ==> #[trigger] copies@[j]@ == compacted(items@[j]@),
                decreases items@.len() - i,
            {
                assert(decreases_to!(*value => value->Array_0@[i as int]));
                copies.push(compact_schema(&items[i]));
                i = i + 1;
            }
            proof {
                json::lemma_array_view(copies);
                json::lemma_array_view(*items);
                assert(json::items_view(copies@) =~= rewritten_items(value@, input_copy())->Array_0);
            }
            JsonValue::Array(copies)
        },
        _ => compact_schema(value),
    }
}

/// Bounds the descriptions of an input schema.
pub fn compact_input_descriptions(schema: &mut JsonValue)
    ensures
        final(schema)@ == compacted(old(schema)@),
{
    let compact = compact_schema(schema);
    *schema = compact;
}

// ---- The listing of one tool -------------------------------------------

/// What the listing says of `work_on_project`.
pub const WORK_ON_PROJECT_COPY: &'static str =
    "Start ordinary coding/review with project or client_id+path. Omit session_id for a fresh Workflow Session; supply it only for exact resume. Defaults return project instructions, workflow and extension guidance. Use mode=worktree for an isolated Git worktree.";

/// What the listing says of `tool_manifest`.
pub const TOOL_MANIFEST_COPY: &'static str =
    "Discover tools by intent/category, or pass tool_name for one exact canonical contract and its direct/gateway route. Use exact lookup when arguments or operational details are not already known.";

/// What the listing says of `call_runtime_tool`.
pub const CALL_RUNTIME_TOOL_COPY: &'static str =
    "Call one admitted runtime tool with its exact arguments. Use tool_manifest to discover the contract. Prefer an available direct callable; this gateway also supports admitted direct tools when that callable is unavailable. Target validation and authority checks still apply.";

/// What the listing says of `run_process`.
pub const RUN_PROCESS_COPY: &'static str =
    "Run one native executable with literal argv. Use run_shell for shell grammar or a short related command chain. Long work continues as the same Runner-owned Job through observe_jobs; retain the returned continuation instead of redispatching.";

/// What the listing says of `run_shell`.
pub const RUN_SHELL_COPY: &'static str =
    "Run shell grammar or a short related command chain. Use run_process for one native executable with literal argv. Long work continues as the same Runner-owned Job through observe_jobs; retain the returned continuation instead of redispatching.";

/// What the listing says of `run_detached_process`.
pub const RUN_DETACHED_PROCESS_COPY: &'static str =
    "Start a native child that intentionally survives Runner restart or replacement as a durable Job. Duration alone does not require detachment. Requires an idempotency_key; retain the same Job and use observe_jobs or stop_job after handoff uncertainty.";

/// What the listing says of `observe_jobs`.
pub const OBSERVE_JOBS_COPY: &'static str =
    "Continue known Jobs by job_id; do not list first. Pass observation_token unchanged as after_observation_token. Follow the returned continuation for more output; observation never redispatches work. Use wait_for_job_terminal when blocked only on terminal completion.";

/// What the listing says of `list_jobs`.
pub const LIST_JOBS_COPY: &'static str =
    "Recover or inventory caller-visible Job identities. When a job_id or continuation is already known, use observe_jobs directly.";

/// What the listing says of `wait_for_job_terminal`.
pub const WAIT_FOR_JOB_TERMINAL_COPY: &'static str =
    "Arm a bounded one-shot terminal wait for one exact existing Job. Reuse the keyed wait and returned continuation; never redispatch the Job. Continue independent work, or follow the offered Host continuation when only terminal completion blocks progress.";

/// What the listing says of `stop_job`.
pub const STOP_JOB_COPY: &'static str =
    "Stop one existing Job by exact job_id with confirm=true. Preserves Project and Session ownership. Use observe_jobs to inspect output or wait_for_job_terminal to wait without stopping.";

/// What the listing says of the argument `recording_session_id`.
pub const RECORDING_SESSION_ID_COPY: &'static str =
    "Optional Workflow Session recorder provenance; never authority or a business Session selector.";

/// What the listing says of the argument `ack_session_message_ids`.
pub const ACK_SESSION_MESSAGE_IDS_COPY: &'static str =
    "IDs of ACK-required Session/Peer messages retained in current model context. Repeat while retained; never resolves messages or grants authority.";

/// What the listing says of the argument `session_message_resolution`.
pub const SESSION_MESSAGE_RESOLUTION_COPY: &'static str =
    "Resolve one already-handled non-todo message in the explicit recording Session; ACK if required. Unrelated to main call success.";

/// What the listing says of the argument `context_request`.
pub const CONTEXT_REQUEST_COPY: &'static str =
    "Optional context sidecar after the result; never authority. Keys: project.instructions, webcodex.workflow, jobs.attention, skills.catalog, plugins.catalog, memory.bootstrap.";

/// The text that the listing shows in place of a tool's own description.
pub open spec fn selection(name: Seq<char>, description: Seq<char>) -> Seq<char> {
    if name == "work_on_project"@ {
        WORK_ON_PROJECT_COPY@
    } else if name == "tool_manifest"@ {
        TOOL_MANIFEST_COPY@
    } else if name == "call_runtime_tool"@ {
        CALL_RUNTIME_TOOL_COPY@
    } else if name == "run_process"@ {
        RUN_PROCESS_COPY@
    } else if name == "run_shell"@ {
        RUN_SHELL_COPY@
    } else if name == "run_detached_process"@ {
        RUN_DETACHED_PROCESS_COPY@
    } else if name == "observe_jobs"@ {
        OBSERVE_JOBS_COPY@
    } else if name == "list_jobs"@ {
        LIST_JOBS_COPY@
    } else if name == "wait_for_job_terminal"@ {
        WAIT_FOR_JOB_TERMINAL_COPY@
    } else if name == "stop_job"@ {
        STOP_JOB_COPY@
    } else {
        description
    }
}

/// The arguments of a schema after the argument `name` has been given a
/// description, where it has one.
pub open spec fn documented(
    properties: Seq<(Seq<char>, JsonView)>,
    name: Seq<char>,
    description: Seq<char>,
) -> Seq<(Seq<char>, JsonView)> {
    match json::lookup(properties, name) {
        Some(JsonView::Object(property)) => match json::lookup(property, "description"@) {
            Some(JsonView::Text(_)) => json::with_field(
                properties,
                name,
                JsonView::Object(
                    json::with_field(property, "description"@, JsonView::Text(description)),
                ),
            ),
            _ => properties,
        },
        _ => properties,
    }
}

/// The arguments of a schema after those that every tool takes have been given
/// their descriptions.
pub open spec fn with_wrapper_copy(properties: Seq<(Seq<char>, JsonView)>) -> Seq<
    (Seq<char>, JsonView),
> {
    let recorded = documented(
        properties,
        "recording_session_id"@,
        RECORDING_SESSION_ID_COPY@,
    );
    let acknowledged = documented(
        recorded,
        "ack_session_message_ids"@,
        ACK_SESSION_MESSAGE_IDS_COPY@,
    );
    let resolved = documented(
        acknowledged,
        "session_message_resolution"@,
        SESSION_MESSAGE_RESOLUTION_COPY@,
    );
    documented(resolved, "context_request"@, CONTEXT_REQUEST_COPY@)
}

/// An input schema as the listing shows it.
pub open spec fn listed_schema(schema: JsonView) -> JsonView {
    match compacted(schema) {
        JsonView::Object(fields) => match json::lookup(fields, "properties"@) {
            Some(JsonView::Object(properties)) => JsonView::Object(
                json::with_field(
                    fields,
                    "properties"@,
                    JsonView::Object(with_wrapper_copy(properties)),
                ),
            ),
            _ => JsonView::Object(fields),
        },
        other => other,
    }
}

/// The fields of a tool after its description has been shortened.
pub open spec fn with_listed_description(fields: Seq<(Seq<char>, JsonView)>) -> Seq<
    (Seq<char>, JsonView),
> {
    match json::lookup(fields, "description"@) {
        Some(JsonView::Text(description)) => json::with_field(
            fields,
            "description"@,
            JsonView::Text(
                bounded(
                    selection(tool_name(fields), description),
                    TOOL_DESCRIPTION_MAX_CHARS as nat,
                ),
            ),
        ),
        _ => fields,
    }
}

/// The name of a tool; empty where it has none.
pub open spec fn tool_name(fields: Seq<(Seq<char>, JsonView)>) -> Seq<char> {
    match json::lookup(fields, "name"@) {
        Some(JsonView::Text(name)) => name,
        _ => Seq::empty(),
    }
}

/// The fields of a tool after its input schema has been shortened.
pub open spec fn with_listed_schema(fields: Seq<(Seq<char>, JsonView)>) -> Seq<
    (Seq<char>, JsonView),
> {
    match json::lookup(fields, "inputSchema"@) {
        Some(schema) => json::with_field(fields, "inputSchema"@, listed_schema(schema)),
        None => fields,
    }
}

/// A tool as the listing shows it.
pub open spec fn listed_tool(tool: JsonView) -> JsonView {
    match tool {
        JsonView::Object(fields) => JsonView::Object(
            with_listed_schema(with_listed_description(fields)),
        ),
        _ => tool,
    }
}

/// Whether every tool takes the argument `name`.
pub open spec fn is_wrapper_argument(name: Seq<char>) -> bool {
    ||| name == "recording_session_id"@
    ||| name == "ack_session_message_ids"@
    ||| name == "session_message_resolution"@
    ||| name == "context_request"@
}

/// The listing changes a tool's description and input schema and keeps all else.
pub proof fn law_listing_keeps_the_rest(fields: Seq<(Seq<char>, JsonView)>, key: Seq<char>)
    requires
        key != "description"@,
        key != "inputSchema"@,
    ensures
        listed_tool(JsonView::Object(fields)).get(key) == JsonView::Object(fields).get(key),
{
    let described = with_listed_description(fields);
    if let Some(JsonView::Text(description)) = json::lookup(fields, "description"@) {
        json::lemma_with_field_lookup(
            fields,
            "description"@,
            described_text(fields, description),
            key,
        );
    }
    if let Some(schema) = json::lookup(described, "inputSchema"@) {
        json::lemma_with_field_lookup(described, "inputSchema"@, listed_schema(schema), key);
    }
}

spec fn described_text(fields: Seq<(Seq<char>, JsonView)>, description: Seq<char>) -> JsonView {
    JsonView::Text(
        bounded(selection(tool_name(fields), description), TOOL_DESCRIPTION_MAX_CHARS as nat),
    )
}

/// Only the arguments that every tool takes get a fixed description: a tool's
/// own argument keeps the copy that compacting gave it.
pub proof fn law_own_arguments_keep_their_copy(schema: JsonView, name: Seq<char>)
    requires
        !is_wrapper_argument(name),
    ensures
        listed_schema(schema).get_within("properties"@, name) == compacted(schema).get_within(
            "properties"@,
            name,
        ),
{
    if let JsonView::Object(fields) = compacted(schema) {
        if let Some(JsonView::Object(properties)) = json::lookup(fields, "properties"@) {
            json::lemma_with_field_lookup(
                fields,
                "properties"@,
                JsonView::Object(with_wrapper_copy(properties)),
                "properties"@,
            );
            lemma_documented_others(
                properties,
                "recording_session_id"@,
                RECORDING_SESSION_ID_COPY@,
                name,
            );
            let recorded = documented(
                properties,
                "recording_session_id"@,
                RECORDING_SESSION_ID_COPY@,
            );
            lemma_documented_others(
                recorded,
                "ack_session_message_ids"@,
                ACK_SESSION_MESSAGE_IDS_COPY@,
                name,
            );
            let acknowledged = documented(
                recorded,
                "ack_session_message_ids"@,
                ACK_SESSION_MESSAGE_IDS_COPY@,
            );
            lemma_documented_others(
                acknowledged,
                "session_message_resolution"@,
                SESSION_MESSAGE_RESOLUTION_COPY@,
                name,
            );
            let resolved = documented(
                acknowledged,
                "session_message_resolution"@,
                SESSION_MESSAGE_RESOLUTION_COPY@,
            );
            lemma_documented_others(resolved, "context_request"@, CONTEXT_REQUEST_COPY@, name);
        }
    }
}

proof fn lemma_documented_others(
    properties: Seq<(Seq<char>, JsonView)>,
    name: Seq<char>,
    description: Seq<char>,
    other: Seq<char>,
)
    requires
        other != name,
    ensures
        json::lookup(documented(properties, name, description), other) == json::lookup(
            properties,
            other,
        ),
{
    if let Some(JsonView::Object(property)) = json::lookup(properties, name) {
        json::lemma_with_field_lookup(
            properties,
            name,
            JsonView::Object(
                json::with_field(property, "description"@, JsonView::Text(description)),
            ),
            other,
        );
    }
}

fn selection_copy<'a>(name: &str, description: &'a str) -> (copy: &'a str)
    ensures
        copy@ == selection(name@, description@),
{
    if same_text(name, "work_on_project") {
        WORK_ON_PROJECT_COPY
    } else if same_text(name, "tool_manifest") {
        TOOL_MANIFEST_COPY
    } else if same_text(name, "call_runtime_tool") {
        CALL_RUNTIME_TOOL_COPY
    } else if same_text(name, "run_process") {
        RUN_PROCESS_COPY
    } else if same_text(name, "run_shell") {
        RUN_SHELL_COPY
    } else if same_text(name, "run_detached_process") {
        RUN_DETACHED_PROCESS_COPY
    } else if same_text(name, "observe_jobs") {
        OBSERVE_JOBS_COPY
    } else if same_text(name, "list_jobs") {
        LIST_JOBS_COPY
    } else if same_text(name, "wait_for_job_terminal") {
        WAIT_FOR_JOB_TERMINAL_COPY
    } else if same_text(name, "stop_job") {
        STOP_JOB_COPY
    } else {
        description
    }
}

fn document(properties: Vec<(String, JsonValue)>, name: &str, description: &str) -> (updated: Vec<
    (String, JsonValue),
>)
    ensures
        json::fields_view(updated@) == documented(
            json::fields_view(properties@),
            name@,
            description@,
        ),
{
    let property = match json::field(&properties, name) {
        Some(property) => property,
        None => return properties,
    };
    let fields = match property.duplicate() {
        JsonValue::Object(fields) => fields,
        _ => return properties,
    };
    proof {
        json::lemma_object_view(fields);
    }
    match json::field(&fields, "description") {
        Some(JsonValue::Text(_)) => {
            let fields = set_field(fields, "description", text_value(description));
            proof {
                json::lemma_object_view(fields);
            }
            set_field(properties, name, JsonValue::Object(fields))
        },
        _ => properties,
    }
}

fn list_schema(schema: &JsonValue) -> (listed: JsonValue)
    ensures
        listed@ == listed_schema(schema@),
{
    match compact_schema(schema) {
        JsonValue::Object(fields) => {
            proof {
                json::lemma_object_view(fields);
            }
            let properties = match json::field(&fields, "properties") {
                Some(properties) => properties.duplicate(),
                None => return JsonValue::Object(fields),
            };
            match properties {
                JsonValue::Object(properties) => {
                    proof {
                        json::lemma_object_view(properties);
                    }
                    let properties = document(properties, "recording_session_id", RECORDING_SESSION_ID_COPY);
                    let properties = document(properties, "ack_session_message_ids", ACK_SESSION_MESSAGE_IDS_COPY);
                    let properties = document(properties, "session_message_resolution", SESSION_MESSAGE_RESOLUTION_COPY);
                    let properties = document(properties, "context_request", CONTEXT_REQUEST_COPY);
                    proof {
                        json::lemma_object_view(properties);
                    }
                    let fields = set_field(fields, "properties", JsonValue::Object(properties));
                    proof {
                        json::lemma_object_view(fields);
                    }
                    JsonValue::Object(fields)
                },
                _ => JsonValue::Object(fields),
            }
        },
        other => other,
    }
}

/// Shortens a tool to what the listing shows of it.
pub fn compact_tool(tool: &mut JsonValue)
    ensures
        final(tool)@ == listed_tool(old(tool)@),
{
    let fields = match tool.duplicate() {
        JsonValue::Object(fields) => fields,
        _ => return ,
    };
    proof {
        json::lemma_object_view(fields);
    }
    let ghost before = json::fields_view(fields@);
    let listed = match json::field(&fields, "description") {
        Some(JsonValue::Text(description)) => {
            let name = match json::field(&fields, "name") {
                Some(JsonValue::Text(name)) => name.as_str(),
                _ => "",
            };
            proof {
                reveal_strlit("");
                assert(""@ =~= Seq::<char>::empty());
            }
            let copy = selection_copy(name, description.as_str());
            Some(bound_description(copy, TOOL_DESCRIPTION_MAX_CHARS))
        },
        _ => None,
    };
    let fields = match listed {
        Some(description) => set_field(fields, "description", JsonValue::Text(description)),
        None => fields,
    };
    assert(json::fields_view(fields@) == with_listed_description(before));
    let listed = match json::field(&fields, "inputSchema") {
        Some(schema) => Some(list_schema(schema)),
        None => None,
    };
    let fields = match listed {
        Some(schema) => set_field(fields, "inputSchema", schema),
        None => fields,
    };
    proof {
        json::lemma_object_view(fields);
    }
    *tool = JsonValue::Object(fields);
}

// ---- What is kept and what is rewritten ----------------------------------------------

/// A description that fits is kept whole, without the white space around it. One
/// that does not and has no sentence to end with is cut behind a word where there is
/// one, keeps its beginning, and ends with an ellipsis.
pub proof fn law_description_keeps_its_beginning(description: Seq<char>, max_chars: nat)
    requires
        max_chars > 0,
    ensures
        text::trimmed(description).len() <= max_chars ==> bounded(description, max_chars)
            == text::trimmed(description),
        text::trimmed(description).len() > max_chars && (forall|end: int|
            0 < end < max_chars ==> !#[trigger] ends_sentence(text::trimmed(description), end))
            ==> bounded(description, max_chars).len() > 0 && bounded(description, max_chars).last()
            == '…' && bounded(description, max_chars).drop_last().is_prefix_of(
            text::trimmed(description),
        ),
{
    let whole = text::trimmed(description);
    if whole.len() > max_chars && (forall|end: int|
        0 < end < max_chars ==> !#[trigger] ends_sentence(whole, end)) {
        let room = (max_chars - 1) as nat;
        lemma_last_sentence_end(whole, room);
        lemma_last_gap(whole, room);
        let words = match last_gap(whole, room) {
            Some(gap) => gap,
            None => room,
        };
        assert(last_sentence_end(whole, room) == 0) by {
            if last_sentence_end(whole, room) > 0 {
                assert(ends_sentence(whole, last_sentence_end(whole, room) as int));
            }
        }
        let kept = text::trimmed_end(whole.take(words as int));
        text::lemma_trimmed_end_tail(whole.take(words as int));
        assert(kept.push('…').drop_last() =~= kept);
        assert(kept =~= whole.take(kept.len() as int));
    }
}

/// Where a schema holds other schemas: under these keywords by name, and under these
/// directly or in a list. Under any other keyword nothing is rewritten, but for the
/// description itself, which is rewritten where it is text.
pub proof fn law_schemas_are_looked_for_under_their_keywords(
    key: Seq<char>,
    value: JsonView,
    copy: spec_fn(Seq<char>) -> Seq<char>,
)
    ensures
        maps_to_schemas(key) <==> key == "properties"@
            || key == "patternProperties"@
            || key == "$defs"@
            || key == "definitions"@
            || key == "dependentSchemas"@
            || key == "dependencies"@,
        holds_schemas(key) <==> key == "items"@
            || key == "prefixItems"@
            || key == "allOf"@
            || key == "anyOf"@
            || key == "oneOf"@
            || key == "additionalItems"@
            || key == "additionalProperties"@
            || key == "unevaluatedItems"@
            || key == "unevaluatedProperties"@
            || key == "propertyNames"@
            || key == "contains"@
            || key == "not"@
            || key == "if"@
            || key == "then"@
            || key == "else"@,
        key != "description"@ && !maps_to_schemas(key) && !holds_schemas(key)
            ==> rewritten_keyword(key, value, copy) == value,
        rewritten_keyword("description"@, value, copy) == (match value {
            JsonView::Text(description) => JsonView::Text(copy(description)),
            _ => value,
        }),
{
}

/// The fields of a schema keep their keys and their places, whatever is rewritten.
proof fn lemma_mapped_lookup(
    fields: Seq<(Seq<char>, JsonView)>,
    mapped: Seq<(Seq<char>, JsonView)>,
    key: Seq<char>,
)
    requires
        mapped.len() == fields.len(),
        forall|i: int| 0 <= i < fields.len() ==> (#[trigger] mapped[i]).0 == fields[i].0,
    ensures
        json::lookup(mapped, key) is Some <==> json::lookup(fields, key) is Some,
        json::lookup(fields, key) is Some ==> exists|i: int|
            0 <= i < fields.len() && #[trigger] fields[i].0 == key && json::lookup(fields, key)
                == Some(fields[i].1) && json::lookup(mapped, key) == Some(mapped[i].1),
    decreases fields.len(),
{
    if fields.len() > 0 {
        if fields[0].0 == key {
            assert(mapped[0].0 == key);
            assert(fields[0].0 == key);
        } else {
            assert(mapped[0].0 != key);
            let rest = fields.drop_first();
            let later = mapped.drop_first();
            assert forall|i: int| 0 <= i < rest.len() implies (#[trigger] later[i]).0
                == rest[i].0 by {
                assert(later[i] == mapped[i + 1]);
            }
            lemma_mapped_lookup(rest, later, key);
            if json::lookup(fields, key) is Some {
                let i = choose|i: int|
                    0 <= i < rest.len() && #[trigger] rest[i].0 == key && json::lookup(rest, key)
                        == Some(rest[i].1) && json::lookup(later, key) == Some(later[i].1);
                assert(fields[i + 1].0 == key && fields[i + 1] == rest[i] && mapped[i + 1]
                    == later[i]);
            }
        }
    }
}

/// The description of a schema is bounded, and that of each of its properties, of
/// its items and of all it is made of; what stands under a key that holds no schema
/// stays as it is.
pub proof fn law_descriptions_are_bounded_where_they_stand(schema: JsonView, key: Seq<char>)
    ensures
        schema.get("description"@) matches Some(JsonView::Text(description)) ==> compacted(
            schema,
        ).get("description"@) == Some(JsonView::Text(bounded(description, 180))),
        schema.get(key) is None ==> compacted(schema).get(key) is None,
        schema.get_within("properties"@, key) matches Some(property) ==> compacted(
            schema,
        ).get_within("properties"@, key) == Some(compacted(property)),
        schema.get("items"@) matches Some(items) ==> items is Object ==> compacted(schema).get(
            "items"@,
        ) == Some(compacted(items)),
        key != "description"@ && !maps_to_schemas(key) && !holds_schemas(key) ==> compacted(
            schema,
        ).get(key) == schema.get(key),
{
    reveal_strlit("description");
    reveal_strlit("properties");
    reveal_strlit("items");
    assert("description"@.len() == 11);
    assert("properties"@.len() == 10);
    assert("items"@.len() == 5);
    reveal_strlit("patternProperties");
    reveal_strlit("$defs");
    reveal_strlit("definitions");
    reveal_strlit("dependentSchemas");
    reveal_strlit("dependencies");
    reveal_strlit("prefixItems");
    reveal_strlit("allOf");
    reveal_strlit("anyOf");
    reveal_strlit("oneOf");
    reveal_strlit("additionalItems");
    reveal_strlit("additionalProperties");
    reveal_strlit("unevaluatedItems");
    reveal_strlit("unevaluatedProperties");
    reveal_strlit("propertyNames");
    reveal_strlit("contains");
    reveal_strlit("not");
    reveal_strlit("if");
    reveal_strlit("then");
    reveal_strlit("else");
    assert("patternProperties"@.len() == 17);
    assert("$defs"@.len() == 5);
    assert("definitions"@.len() == 11);
    assert("dependentSchemas"@.len() == 16);
    assert("dependencies"@.len() == 12);
    assert("prefixItems"@.len() == 11);
    assert("allOf"@.len() == 5);
    assert("anyOf"@.len() == 5);
    assert("oneOf"@.len() == 5);
    assert("additionalItems"@.len() == 15);
    assert("additionalProperties"@.len() == 20);
    assert("unevaluatedItems"@.len() == 16);
    assert("unevaluatedProperties"@.len() == 21);
    assert("propertyNames"@.len() == 13);
    assert("contains"@.len() == 8);
    assert("not"@.len() == 3);
    assert("if"@.len() == 2);
    assert("then"@.len() == 4);
    assert("else"@.len() == 4);
    assert("$defs"@[0] != "allOf"@[0]);
    assert("$defs"@[0] != "anyOf"@[0]);
    assert("$defs"@[0] != "oneOf"@[0]);
    assert("definitions"@[0] != "prefixItems"@[0]);
    assert("dependentSchemas"@[0] != "unevaluatedItems"@[0]);
    assert("allOf"@[1] != "anyOf"@[1]);
    assert("allOf"@[0] != "oneOf"@[0]);
    assert("anyOf"@[0] != "oneOf"@[0]);
    assert("then"@[0] != "else"@[0]);
    if let JsonView::Object(fields) = schema {
        let copy = input_copy();
        let mapped = compacted(schema)->Object_0;
        assert forall|i: int| 0 <= i < fields.len() implies (#[trigger] mapped[i]).0 == fields[i].0
            && mapped[i].1 == rewritten_keyword(fields[i].0, fields[i].1, copy) by {}
        lemma_mapped_lookup(fields, mapped, key);
        lemma_mapped_lookup(fields, mapped, "description"@);
        lemma_mapped_lookup(fields, mapped, "items"@);
        lemma_mapped_lookup(fields, mapped, "properties"@);
        if json::lookup(fields, key) is Some {
            let i = choose|i: int|
                0 <= i < fields.len() && #[trigger] fields[i].0 == key && json::lookup(fields, key)
                    == Some(fields[i].1) && json::lookup(mapped, key) == Some(mapped[i].1);
            law_schemas_are_looked_for_under_their_keywords(key, fields[i].1, copy);
        }
        if json::lookup(fields, "description"@) is Some {
            let i = choose|i: int|
                0 <= i < fields.len() && #[trigger] fields[i].0 == "description"@ && json::lookup(
                    fields,
                    "description"@,
                ) == Some(fields[i].1) && json::lookup(mapped, "description"@) == Some(mapped[i].1);
            law_schemas_are_looked_for_under_their_keywords("description"@, fields[i].1, copy);
        }
        if json::lookup(fields, "items"@) is Some {
            let i = choose|i: int|
                0 <= i < fields.len() && #[trigger] fields[i].0 == "items"@ && json::lookup(
                    fields,
                    "items"@,
                ) == Some(fields[i].1) && json::lookup(mapped, "items"@) == Some(mapped[i].1);
            assert("items"@ != "description"@);
            assert(holds_schemas("items"@));
            assert(!maps_to_schemas("items"@));
        }
        if json::lookup(fields, "properties"@) is Some {
            let i = choose|i: int|
                0 <= i < fields.len() && #[trigger] fields[i].0 == "properties"@ && json::lookup(
                    fields,
                    "properties"@,
                ) == Some(fields[i].1) && json::lookup(mapped, "properties"@) == Some(mapped[i].1);
            assert("properties"@ != "description"@);
            assert(maps_to_schemas("properties"@));
            assert(mapped[i].1 == rewritten_children(fields[i].1, copy));
            if let JsonView::Object(properties) = fields[i].1 {
                let children = mapped[i].1->Object_0;
                assert forall|j: int| 0 <= j < properties.len() implies (#[trigger] children[j]).0
                    == properties[j].0 && children[j].1 == rewritten(properties[j].1, copy) by {}
                lemma_mapped_lookup(properties, children, key);
            }
        }
    }
}

/// Each tool that is chosen often has a copy of its own, and every other tool keeps
/// its own description.
pub proof fn law_selected_tools_have_their_own_copy(name: Seq<char>, description: Seq<char>)
    ensures
        selection("work_on_project"@, description) == WORK_ON_PROJECT_COPY@,
        selection("tool_manifest"@, description) == TOOL_MANIFEST_COPY@,
        selection("call_runtime_tool"@, description) == CALL_RUNTIME_TOOL_COPY@,
        selection("run_process"@, description) == RUN_PROCESS_COPY@,
        selection("run_shell"@, description) == RUN_SHELL_COPY@,
        selection("run_detached_process"@, description) == RUN_DETACHED_PROCESS_COPY@,
        selection("observe_jobs"@, description) == OBSERVE_JOBS_COPY@,
        selection("list_jobs"@, description) == LIST_JOBS_COPY@,
        selection("wait_for_job_terminal"@, description) == WAIT_FOR_JOB_TERMINAL_COPY@,
        selection("stop_job"@, description) == STOP_JOB_COPY@,
        (name != "work_on_project"@
            && name != "tool_manifest"@
            && name != "call_runtime_tool"@
            && name != "run_process"@
            && name != "run_shell"@
            && name != "run_detached_process"@
            && name != "observe_jobs"@
            && name != "list_jobs"@
            && name != "wait_for_job_terminal"@
            && name != "stop_job"@) ==> selection(name, description)
            == description,
{
    reveal_strlit("work_on_project");
    reveal_strlit("tool_manifest");
    reveal_strlit("call_runtime_tool");
    reveal_strlit("run_process");
    reveal_strlit("run_shell");
    reveal_strlit("run_detached_process");
    reveal_strlit("observe_jobs");
    reveal_strlit("list_jobs");
    reveal_strlit("wait_for_job_terminal");
    reveal_strlit("stop_job");
    assert("work_on_project"@.len() == 15);
    assert("tool_manifest"@.len() == 13);
    assert("call_runtime_tool"@.len() == 17);
    assert("run_process"@.len() == 11);
    assert("run_shell"@.len() == 9);
    assert("run_detached_process"@.len() == 20);
    assert("observe_jobs"@.len() == 12);
    assert("list_jobs"@.len() == 9);
    assert("wait_for_job_terminal"@.len() == 21);
    assert("stop_job"@.len() == 8);
    assert("run_shell"@[0] != "list_jobs"@[0]);
}

/// The listed form of a tool: its description is the copy that is chosen for its
/// name, bounded; its input schema is the listed one.
pub proof fn law_listed_tool_has_its_copy_and_schema(
    fields: Seq<(Seq<char>, JsonView)>,
    name: Seq<char>,
    description: Seq<char>,
    schema: JsonView,
)
    requires
        json::lookup(fields, "name"@) == Some(JsonView::Text(name)),
        json::lookup(fields, "description"@) == Some(JsonView::Text(description)),
        json::lookup(fields, "inputSchema"@) == Some(schema),
    ensures
        listed_tool(JsonView::Object(fields)).get("name"@) == Some(JsonView::Text(name)),
        listed_tool(JsonView::Object(fields)).get("description"@) == Some(
            JsonView::Text(bounded(selection(name, description), 420)),
        ),
        listed_tool(JsonView::Object(fields)).get("inputSchema"@) == Some(listed_schema(schema)),
{
    reveal_strlit("name");
    reveal_strlit("description");
    reveal_strlit("inputSchema");
    assert("name"@.len() == 4);
    assert("description"@.len() == 11);
    assert("inputSchema"@.len() == 11);
    assert("description"@[0] != "inputSchema"@[0]);
    assert("description"@[0] == 'd' && "inputSchema"@[0] == 'i');
    let shown = JsonView::Text(bounded(selection(name, description), 420));
    let described = json::with_field(fields, "description"@, shown);
    json::lemma_with_field_lookup(fields, "description"@, shown, "name"@);
    json::lemma_with_field_lookup(fields, "description"@, shown, "description"@);
    json::lemma_with_field_lookup(fields, "description"@, shown, "inputSchema"@);
    let listed = listed_schema(schema);
    json::lemma_with_field_lookup(described, "inputSchema"@, listed, "name"@);
    json::lemma_with_field_lookup(described, "inputSchema"@, listed, "description"@);
    json::lemma_with_field_lookup(described, "inputSchema"@, listed, "inputSchema"@);
}

/// A property that is described gets the copy that is given for it, and nothing else
/// of it, and no other property, changes; one that is not there or not described
/// stays so.
pub proof fn law_described_property_gets_its_copy(
    properties: Seq<(Seq<char>, JsonView)>,
    name: Seq<char>,
    property: Seq<(Seq<char>, JsonView)>,
    said: Seq<char>,
    description: Seq<char>,
    key: Seq<char>,
)
    requires
        json::lookup(properties, name) == Some(JsonView::Object(property)),
        json::lookup(property, "description"@) == Some(JsonView::Text(said)),
    ensures
        JsonView::Object(documented(properties, name, description)).get_within(
            name,
            "description"@,
        ) == Some(JsonView::Text(description)),
        key != "description"@ ==> JsonView::Object(
            documented(properties, name, description),
        ).get_within(name, key) == json::lookup(property, key),
        key != name ==> json::lookup(documented(properties, name, description), key)
            == json::lookup(properties, key),
{
    let told = JsonView::Text(description);
    let after = JsonView::Object(json::with_field(property, "description"@, told));
    json::lemma_with_field_lookup(property, "description"@, told, "description"@);
    json::lemma_with_field_lookup(property, "description"@, told, key);
    json::lemma_with_field_lookup(properties, name, after, name);
    json::lemma_with_field_lookup(properties, name, after, key);
}

proof fn lemma_gap_is_the_last(text: Seq<char>, most: nat)
    requires
        most <= text.len(),
    ensures
        match last_gap(text, most) {
            Some(gap) => 0 < gap < most && text::is_white_space(text[gap as int]) && forall|i: int|
                gap < i < most ==> !text::is_white_space(#[trigger] text[i]),
            None => forall|i: int| 0 < i < most ==> !text::is_white_space(#[trigger] text[i]),
        },
    decreases most,
{
    if most > 1 && !text::is_white_space(text[most - 1]) {
        lemma_gap_is_the_last(text, (most - 1) as nat);
    }
}

/// A description that is cut without a sentence to end with is cut behind its last
/// word that fits: what follows the cut is white space, and the word behind that
/// does not end before the limit.
pub proof fn law_description_is_cut_behind_a_word(description: Seq<char>, max_chars: nat, at: int)
    requires
        text::trimmed(description).len() > max_chars,
        0 < at < max_chars - 1,
        text::is_white_space(text::trimmed(description)[at]),
        forall|end: int|
            0 < end < max_chars ==> !#[trigger] ends_sentence(text::trimmed(description), end),
    ensures
        ({
            let whole = text::trimmed(description);
            let kept = bounded(description, max_chars).len() - 1;
            &&& 0 <= kept < max_chars - 1
            &&& text::is_white_space(whole[kept])
            &&& forall|i: int, j: int|
                kept <= i < j < max_chars - 1 && !text::is_white_space(#[trigger] whole[i])
                    ==> !text::is_white_space(#[trigger] whole[j])
        }),
{
    let whole = text::trimmed(description);
    let room = (max_chars - 1) as nat;
    lemma_last_sentence_end(whole, room);
    assert(last_sentence_end(whole, room) == 0) by {
        if last_sentence_end(whole, room) > 0 {
            assert(ends_sentence(whole, last_sentence_end(whole, room) as int));
        }
    }
    lemma_gap_is_the_last(whole, room);
    let gap = last_gap(whole, room)->Some_0;
    let front = whole.take(gap as int);
    let kept = text::trimmed_end(front);
    text::lemma_trimmed_end_tail(front);
    let ends = text::law_trimmed_end_is_a_beginning(front);
    assert forall|i: int| kept.len() <= i <= gap implies text::is_white_space(
        #[trigger] whole[i],
    ) by {
        if i < gap {
            assert(front[i] == whole[i]);
        }
    }
}

/// A sentence ends behind a full stop, an exclamation mark or a question mark that
/// is followed by white space or by nothing, and nowhere else.
pub proof fn law_sentence_ends_behind_its_mark(front: Seq<char>, mark: char, rest: Seq<char>)
    ensures
        ends_sentence(front.push(mark), front.len() as int + 1) <==> mark == '.' || mark == '!'
            || mark == '?',
        rest.len() > 0 ==> (ends_sentence(front.push(mark) + rest, front.len() as int + 1) <==> (
        mark == '.' || mark == '!' || mark == '?') && text::is_white_space(rest[0])),
        !ends_sentence(front, 0),
{
}

} // verus!
