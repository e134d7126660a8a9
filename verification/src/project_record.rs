//! Records of the Runner's project registry: what they hold, how they compare
//! with a request, and how a managed record is written.
use crate::json;
use crate::json::{add_field, optional_text, text_value, JsonValue};
use crate::text;
use crate::text::{as_text, chars_of, is_text, same_text};
use vstd::prelude::*;
use vstd::string::*;

verus! {

/// A record of the project registry.
#[derive(Debug)]
pub struct RunnerProjectFile {
    pub id: String,
    pub path: String,
    pub shell_profile: Option<String>,
    pub allow_patch: bool,
    pub name: Option<String>,
    pub kind: Option<String>,
    pub registration_source: Option<String>,
    pub description: Option<String>,
    pub disabled: bool,
    pub hooks: Vec<(String, Vec<String>)>,
    pub managed_worktree: bool,
    pub managed_source: Option<String>,
    pub managed_source_project_id: Option<String>,
    pub managed_source_root_fingerprint: Option<String>,
    pub managed_base_ref: Option<String>,
    pub managed_base_sha: Option<String>,
    pub managed_operation_id: Option<String>,
}

/// What the registry catalog derives from a record and from the disk.
#[derive(Debug)]
pub struct ProjectFacts {
    /// The kind under which the record is announced.
    pub wire_kind: Option<String>,
    /// Who registered the project.
    pub registration_source: String,
    /// The revision of the record.
    pub revision: String,
    /// The fingerprint of the project's root, where the root is a directory.
    pub root_fingerprint: Option<String>,
    /// Where the project comes from.
    pub lineage: JsonValue,
}

/// The request that a registered project is compared with.
pub struct ProjectRequest<'a> {
    pub id: &'a str,
    pub name: &'a str,
    pub description: Option<&'a str>,
    pub allow_patch: bool,
}

/// Whether an enabled record holds exactly what a request asks for.
pub open spec fn holds_request(
    project: RunnerProjectFile,
    id: Seq<char>,
    name: Seq<char>,
    description: Option<Seq<char>>,
    allow_patch: bool,
    same_path: bool,
) -> bool {
    &&& project.id@ == id
    &&& same_path
    &&& text::text_of(project.name) == Some(name)
    &&& text::text_of(project.description) == description
    &&& project.allow_patch == allow_patch
    &&& !project.disabled
}

/// Whether an enabled record holds exactly what a request asks for.
pub open spec fn record_matches(
    project: RunnerProjectFile,
    request: ProjectRequest,
    same_path: bool,
) -> bool {
    holds_request(
        project,
        request.id@,
        request.name@,
        text::str_of(request.description),
        request.allow_patch,
        same_path,
    )
}

/// Whether two optional texts are equal.
pub fn same_optional(a: Option<&str>, b: Option<&str>) -> (same: bool)
    ensures
        same == (text::str_of(a) == text::str_of(b)),
{
    match b {
        Some(wanted) => is_text(a, wanted),
        None => a.is_none(),
    }
}

/// Compares a request with the record that stands under its identifier.
/// `same_path` says whether the two paths are equal. There is no record: nothing
/// stands in the way. The record could not be read: `operation_failed`. It is
/// another project: `project_already_exists`.
pub fn matching_existing_project(
    exists: bool,
    record: Option<RunnerProjectFile>,
    request: &ProjectRequest,
    same_path: bool,
) -> (result: Result<Option<RunnerProjectFile>, &'static str>)
    ensures
        match result {
            Ok(None) => !exists,
            Ok(Some(project)) => exists && record == Some(project) && record_matches(
                project,
                *request,
                same_path,
            ),
            Err(code) => exists && match record {
                None => code@ == "operation_failed"@,
                Some(project) => !record_matches(project, *request, same_path) && code@
                    == "project_already_exists"@,
            },
        },
{
    if !exists {
        return Ok(None);
    }
    let project = match record {
        Some(project) => project,
        None => {
            return Err("operation_failed");
        },
    };
    let matches = same_text(project.id.as_str(), request.id) && same_path && is_text(
        as_text(&project.name),
        request.name,
    ) && same_optional(as_text(&project.description), request.description) && project.allow_patch
        == request.allow_patch && !project.disabled;
    if matches {
        Ok(Some(project))
    } else {
        Err("project_already_exists")
    }
}

/// What the disk shows of a project that may have been created before.
#[derive(Debug)]
pub struct CreatedProject {
    pub is_dir: bool,
    pub has_git_dir: bool,
    pub has_readme: bool,
    pub has_gitignore: bool,
}

/// Whether the disk shows everything that creating the project would have left.
pub open spec fn creation_is_complete(
    seen: CreatedProject,
    template: Seq<char>,
    git_init: bool,
) -> bool {
    &&& seen.is_dir
    &&& git_init ==> seen.has_git_dir
    &&& template == "basic"@ ==> seen.has_readme && seen.has_gitignore
}

/// Whether an earlier creation of the same project may be taken as its own.
pub fn validate_recovered_create_side_effects(
    seen: &CreatedProject,
    template: &str,
    git_init: bool,
) -> (result: Result<(), &'static str>)
    ensures
        (result is Ok) == creation_is_complete(*seen, template@, git_init),
        result matches Err(code) ==> code@ == "project_already_exists"@,
{
    if !seen.is_dir {
        return Err("project_already_exists");
    }
    if git_init && !seen.has_git_dir {
        return Err("project_already_exists");
    }
    if same_text(template, "basic") && (!seen.has_readme || !seen.has_gitignore) {
        return Err("project_already_exists");
    }
    Ok(())
}

/// The identifier under which the Server knows a Runner's project.
pub open spec fn runtime_id_of(client_id: Seq<char>, id: Seq<char>) -> Seq<char> {
    "agent:"@ + client_id + ":"@ + id
}

/// The identifier under which the Server knows a Runner's project.
pub fn runtime_id(client_id: &str, id: &str) -> (result: String)
    ensures
        result@ == runtime_id_of(client_id@, id@),
{
    let mut result = "agent:".to_owned();
    result.append(client_id);
    result.append(":");
    result.append(id);
    result
}

/// The document of a registration or creation that was found to be done.
pub open spec fn recovered_document(
    create: bool,
    runtime_id: Seq<char>,
    client_id: Seq<char>,
    project: RunnerProjectFile,
    facts: ProjectFacts,
    template: Option<Seq<char>>,
    git_init: bool,
) -> json::JsonView {
    json::JsonView::Object(
        seq![
            ("id"@, json::JsonView::Text(runtime_id)),
            ("agent_project_id"@, json::JsonView::Text(project.id@)),
            ("client_id"@, json::JsonView::Text(client_id)),
            ("name"@, json::text_or_null(text::text_of(project.name))),
            ("path"@, json::JsonView::Text(project.path@)),
            ("kind"@, json::text_or_null(text::text_of(project.kind))),
            ("registration_source"@, json::JsonView::Text(facts.registration_source@)),
            ("description"@, json::text_or_null(text::text_of(project.description))),
            ("created_directory"@, json::JsonView::Bool(false)),
            ("created_config"@, json::JsonView::Bool(false)),
            ("overwritten"@, json::JsonView::Bool(false)),
            ("allow_patch"@, json::JsonView::Bool(project.allow_patch)),
            ("template"@, json::text_or_null(template)),
            ("git_initialized"@, json::JsonView::Bool(git_init)),
            ("recovered"@, json::JsonView::Bool(true)),
            ("changed"@, json::JsonView::Bool(false)),
            (
                "operation"@,
                json::JsonView::Text(
                    if create {
                        "create"@
                    } else {
                        "register"@
                    },
                ),
            ),
            (
                "outcome"@,
                json::JsonView::Text(
                    if create {
                        "created"@
                    } else {
                        "registered"@
                    },
                ),
            ),
            ("revision"@, json::JsonView::Text(facts.revision@)),
            ("root_fingerprint"@, json::text_or_null(text::text_of(facts.root_fingerprint))),
            ("lineage"@, facts.lineage@),
        ],
    )
}

/// The document of a registration or creation that was found to be done.
pub fn recovered_project_result(
    create: bool,
    runtime_id: &str,
    client_id: &str,
    project: &RunnerProjectFile,
    facts: &ProjectFacts,
    template: Option<&str>,
    git_init: bool,
) -> (document: JsonValue)
    ensures
        document@ == recovered_document(
            create,
            runtime_id@,
            client_id@,
            *project,
            *facts,
            text::str_of(template),
            git_init,
        ),
{
    let mut fields: Vec<(String, JsonValue)> = Vec::new();
    add_field(&mut fields, "id", text_value(runtime_id));
    add_field(&mut fields, "agent_project_id", text_value(project.id.as_str()));
    add_field(&mut fields, "client_id", text_value(client_id));
    add_field(&mut fields, "name", optional_text(as_text(&project.name)));
    add_field(&mut fields, "path", text_value(project.path.as_str()));
    add_field(&mut fields, "kind", optional_text(as_text(&project.kind)));
    add_field(
        &mut fields,
        "registration_source",
        text_value(facts.registration_source.as_str()),
    );
    add_field(&mut fields, "description", optional_text(as_text(&project.description)));
    add_field(&mut fields, "created_directory", JsonValue::Bool(false));
    add_field(&mut fields, "created_config", JsonValue::Bool(false));
    add_field(&mut fields, "overwritten", JsonValue::Bool(false));
    add_field(&mut fields, "allow_patch", JsonValue::Bool(project.allow_patch));
    add_field(&mut fields, "template", optional_text(template));
    add_field(&mut fields, "git_initialized", JsonValue::Bool(git_init));
    add_field(&mut fields, "recovered", JsonValue::Bool(true));
    add_field(&mut fields, "changed", JsonValue::Bool(false));
    add_field(&mut fields, "operation", text_value(if create { "create" } else { "register" }));
    add_field(&mut fields, "outcome", text_value(if create { "created" } else { "registered" }));
    add_field(&mut fields, "revision", text_value(facts.revision.as_str()));
    add_field(
        &mut fields,
        "root_fingerprint",
        optional_text(as_text(&facts.root_fingerprint)),
    );
    add_field(&mut fields, "lineage", facts.lineage.duplicate());
    proof {
        json::lemma_object_view(fields);
        assert(json::fields_view(fields@) =~= recovered_document(
            create,
            runtime_id@,
            client_id@,
            *project,
            *facts,
            text::str_of(template),
            git_init,
        )->Object_0);
    }
    JsonValue::Object(fields)
}

// ---- Writing a record --------------------------------------------------------

/// The hexadecimal digit for a value under sixteen.
pub open spec fn large_hex_digit(value: nat) -> char {
    if value < 10 {
        text::digit_char(value)
    } else if value == 10 {
        'A'
    } else if value == 11 {
        'B'
    } else if value == 12 {
        'C'
    } else if value == 13 {
        'D'
    } else if value == 14 {
        'E'
    } else {
        'F'
    }
}

/// Whether a character may stand only escaped in a basic TOML string.
pub open spec fn needs_escape(ch: char) -> bool {
    ch == '"' || ch == '\\' || (ch as u32) < 0x20 || ch as u32 == 0x7f
}

/// A character as it is written in a basic TOML string. Of the escapes that TOML
/// knows, these are chosen: a backslash before a quote and a backslash; `\n`, `\r`
/// and `\t`; and `\u00XX`, in capital digits, for every other control character,
/// also where TOML has a short form.
pub open spec fn toml_char(ch: char) -> Seq<char> {
    if ch == '"' {
        seq!['\\', '"']
    } else if ch == '\\' {
        seq!['\\', '\\']
    } else if ch == '\n' {
        seq!['\\', 'n']
    } else if ch == '\r' {
        seq!['\\', 'r']
    } else if ch == '\t' {
        seq!['\\', 't']
    } else if needs_escape(ch) {
        seq![
            '\\',
            'u',
            '0',
            '0',
            large_hex_digit((ch as u32 / 16) as nat),
            large_hex_digit((ch as u32 % 16) as nat),
        ]
    } else {
        seq![ch]
    }
}

/// The inside of a basic TOML string.
pub open spec fn toml_escaped(value: Seq<char>) -> Seq<char>
    decreases value.len(),
{
    if value.len() == 0 {
        Seq::empty()
    } else {
        toml_escaped(value.drop_last()) + toml_char(value.last())
    }
}

/// A value as a basic TOML string.
pub open spec fn toml_quoted(value: Seq<char>) -> Seq<char> {
    seq!['"'] + toml_escaped(value) + seq!['"']
}

fn hex_digit(value: u32) -> (ch: char)
    requires
        value < 16,
    ensures
        ch == large_hex_digit(value as nat),
{
    match value {
        0 => '0',
        1 => '1',
        2 => '2',
        3 => '3',
        4 => '4',
        5 => '5',
        6 => '6',
        7 => '7',
        8 => '8',
        9 => '9',
        10 => 'A',
        11 => 'B',
        12 => 'C',
        13 => 'D',
        14 => 'E',
        _ => 'F',
    }
}

fn push_toml_char(target: &mut String, ch: char)
    ensures
        final(target)@ == old(target)@ + toml_char(ch),
{
    let ghost before = target@;
    let code: u32 = ch as u32;
    if ch == '"' || ch == '\\' {
        target.push('\\');
        target.push(ch);
    } else if ch == '\n' {
        target.push('\\');
        target.push('n');
    } else if ch == '\r' {
        target.push('\\');
        target.push('r');
    } else if ch == '\t' {
        target.push('\\');
        target.push('t');
    } else if code < 0x20 || code == 0x7f {
        target.push('\\');
        target.push('u');
        target.push('0');
        target.push('0');
        target.push(hex_digit(code / 16));
        target.push(hex_digit(code % 16));
    } else {
        target.push(ch);
    }
    assert(target@ =~= before + toml_char(ch));
}

/// A value as a basic TOML string.
pub fn toml_basic_string(value: &str) -> (quoted: String)
    ensures
        quoted@ == toml_quoted(value@),
{
    let chars = chars_of(value);
    let mut quoted = String::new();
    quoted.push('"');
    let mut i: usize = 0;
    assert(quoted@ =~= seq!['"'] + toml_escaped(value@.take(0)));
    while i < chars.len()
        invariant
            i <= chars@.len(),
            chars@ == value@,
            quoted@ == seq!['"'] + toml_escaped(value@.take(i as int)),
        decreases chars@.len() - i,
    {
        push_toml_char(&mut quoted, chars[i]);
        assert(value@.take(i + 1).drop_last() =~= value@.take(i as int));
        assert(quoted@ =~= seq!['"'] + toml_escaped(value@.take(i + 1)));
        i = i + 1;
    }
    quoted.push('"');
    assert(value@.take(i as int) =~= value@);
    assert(quoted@ =~= toml_quoted(value@));
    quoted
}

/// One `key = "value"` line of a record.
pub open spec fn record_line(key: Seq<char>, value: Seq<char>) -> Seq<char> {
    key + " = "@ + toml_quoted(value) + "\n"@
}

fn push_record_line(content: &mut String, key: &str, value: &str)
    ensures
        final(content)@ == old(content)@ + record_line(key@, value@),
{
    let ghost before = content@;
    content.append(key);
    content.append(" = ");
    content.append(toml_basic_string(value).as_str());
    content.append("\n");
    assert(content@ =~= before + record_line(key@, value@));
}

/// Where a managed worktree comes from.
pub struct ManagedOrigin<'a> {
    pub source: &'a str,
    pub source_project_id: &'a str,
    pub source_root_fingerprint: &'a str,
    pub base_ref: &'a str,
    pub base_sha: &'a str,
    pub operation_id: &'a str,
}

/// A record with the fields of a managed worktree behind its own.
pub open spec fn managed_lines(
    record: Seq<char>,
    source: Seq<char>,
    source_project_id: Seq<char>,
    source_root_fingerprint: Seq<char>,
    base_ref: Seq<char>,
    base_sha: Seq<char>,
    operation_id: Seq<char>,
) -> Seq<char> {
    record + "managed_worktree = true\n"@ + record_line("managed_source"@, source) + record_line(
        "managed_source_project_id"@,
        source_project_id,
    ) + record_line("managed_source_root_fingerprint"@, source_root_fingerprint) + record_line(
        "managed_base_ref"@,
        base_ref,
    ) + record_line("managed_base_sha"@, base_sha) + record_line(
        "managed_operation_id"@,
        operation_id,
    )
}

/// The record of a managed worktree: `record` is the record of the worktree as
/// a project of its own.
pub fn managed_worktree_project_toml(record: &str, origin: &ManagedOrigin) -> (content: String)
    ensures
        content@ == managed_lines(
            record@,
            origin.source@,
            origin.source_project_id@,
            origin.source_root_fingerprint@,
            origin.base_ref@,
            origin.base_sha@,
            origin.operation_id@,
        ),
{
    let mut content = record.to_owned();
    content.append("managed_worktree = true\n");
    push_record_line(&mut content, "managed_source", origin.source);
    push_record_line(&mut content, "managed_source_project_id", origin.source_project_id);
    push_record_line(
        &mut content,
        "managed_source_root_fingerprint",
        origin.source_root_fingerprint,
    );
    push_record_line(&mut content, "managed_base_ref", origin.base_ref);
    push_record_line(&mut content, "managed_base_sha", origin.base_sha);
    push_record_line(&mut content, "managed_operation_id", origin.operation_id);
    content
}

/// A quoted value holds no control character: it cannot end the line it stands on.
pub proof fn law_quoted_value_stays_on_its_line(value: Seq<char>)
    ensures
        forall|i: int|
            0 <= i < toml_quoted(value).len() ==> (#[trigger] toml_quoted(value)[i]) as u32 >= 0x20,
{
    lemma_escaped_has_no_control(value);
    let quoted = toml_quoted(value);
    let inside = toml_escaped(value);
    assert forall|i: int| 0 <= i < quoted.len() implies (#[trigger] quoted[i]) as u32 >= 0x20 by {
        if 0 < i < quoted.len() - 1 {
            assert(quoted[i] == inside[i - 1]);
        }
    }
}

proof fn lemma_escaped_has_no_control(value: Seq<char>)
    ensures
        forall|i: int|
            0 <= i < toml_escaped(value).len() ==> (#[trigger] toml_escaped(value)[i]) as u32
                >= 0x20,
    decreases value.len(),
{
    if value.len() > 0 {
        let before = toml_escaped(value.drop_last());
        let last = toml_char(value.last());
        lemma_escaped_has_no_control(value.drop_last());
        let all = toml_escaped(value);
        assert forall|i: int| 0 <= i < all.len() implies (#[trigger] all[i]) as u32 >= 0x20 by {
            if i < before.len() {
                assert(all[i] == before[i]);
            } else {
                assert(all[i] == last[i - before.len()]);
            }
        }
    }
}

/// How many characters the first written character of an escaped text takes.
spec fn token_len(escaped: Seq<char>) -> int {
    if escaped[0] != '\\' {
        1
    } else if escaped[1] == 'u' {
        6
    } else {
        2
    }
}

proof fn lemma_toml_char_token(ch: char, rest: Seq<char>)
    ensures
        toml_char(ch).len() > 0,
        token_len(toml_char(ch) + rest) == toml_char(ch).len(),
{
    let all = toml_char(ch) + rest;
    assert(all[0] == toml_char(ch)[0]);
    if toml_char(ch).len() > 1 {
        assert(all[1] == toml_char(ch)[1]);
    }
}

proof fn lemma_large_hex_digit_injective(a: nat, b: nat)
    requires
        a < 16,
        b < 16,
        large_hex_digit(a) == large_hex_digit(b),
    ensures
        a == b,
{
}

proof fn lemma_toml_char_injective(a: char, b: char)
    requires
        toml_char(a) == toml_char(b),
    ensures
        a == b,
{
    let x = toml_char(a);
    let y = toml_char(b);
    assert(x.len() == y.len());
    assert(x[0] == y[0]);
    if x.len() == 6 {
        let ca = a as u32;
        let cb = b as u32;
        assert(x[4] == large_hex_digit((ca / 16) as nat));
        assert(y[4] == large_hex_digit((cb / 16) as nat));
        assert(x[5] == large_hex_digit((ca % 16) as nat));
        assert(y[5] == large_hex_digit((cb % 16) as nat));
        lemma_large_hex_digit_injective((ca / 16) as nat, (cb / 16) as nat);
        lemma_large_hex_digit_injective((ca % 16) as nat, (cb % 16) as nat);
        assert(ca == cb);
    } else if x.len() == 2 {
        assert(x[1] == y[1]);
    } else {
        assert(x[0] == a);
        assert(y[0] == b);
    }
}

proof fn lemma_escaped_head(value: Seq<char>)
    requires
        value.len() > 0,
    ensures
        toml_escaped(value) == toml_char(value[0]) + toml_escaped(value.drop_first()),
    decreases value.len(),
{
    if value.len() == 1 {
        assert(toml_escaped(value.drop_last()) =~= Seq::<char>::empty());
        assert(toml_escaped(value.drop_first()) =~= Seq::<char>::empty());
        assert(toml_escaped(value) =~= toml_char(value[0]));
        assert(toml_char(value[0]) + toml_escaped(value.drop_first()) =~= toml_char(value[0]));
    } else {
        let head = value.drop_last();
        lemma_escaped_head(head);
        let tail = value.drop_first();
        assert(tail.drop_last() =~= head.drop_first());
        assert(toml_escaped(value) =~= toml_char(value[0]) + toml_escaped(tail));
    }
}

proof fn lemma_escaped_injective(a: Seq<char>, b: Seq<char>)
    requires
        toml_escaped(a) == toml_escaped(b),
    ensures
        a == b,
    decreases a.len(),
{
    if a.len() == 0 {
        if b.len() > 0 {
            lemma_escaped_head(b);
            lemma_toml_char_token(b[0], toml_escaped(b.drop_first()));
        }
        assert(a =~= b);
    } else {
        lemma_escaped_head(a);
        let rest_a = toml_escaped(a.drop_first());
        lemma_toml_char_token(a[0], rest_a);
        if b.len() > 0 {
            lemma_escaped_head(b);
            let rest_b = toml_escaped(b.drop_first());
            lemma_toml_char_token(b[0], rest_b);
            let all = toml_escaped(a);
            let size = token_len(all);
            assert(toml_char(a[0]) =~= all.take(size));
            assert(toml_char(b[0]) =~= all.take(size));
            lemma_toml_char_injective(a[0], b[0]);
            assert(rest_a =~= all.skip(size));
            assert(rest_b =~= all.skip(size));
            lemma_escaped_injective(a.drop_first(), b.drop_first());
            assert(a =~= seq![a[0]] + a.drop_first());
            assert(b =~= seq![b[0]] + b.drop_first());
        }
    }
}

/// Two values with the same quoted spelling are the same value: quoting loses
/// nothing.
pub proof fn law_quoting_is_injective(a: Seq<char>, b: Seq<char>)
    requires
        toml_quoted(a) == toml_quoted(b),
    ensures
        a == b,
{
    let x = toml_quoted(a);
    assert(toml_escaped(a) =~= x.subrange(1, x.len() - 1));
    assert(toml_escaped(b) =~= x.subrange(1, x.len() - 1));
    lemma_escaped_injective(a, b);
}

/// A project that an earlier operation made is told as it is recorded, with nothing
/// changed, and as the outcome of the operation that was asked for.
pub proof fn law_recovered_project_is_told_as_recorded(
    create: bool,
    runtime_id: Seq<char>,
    client_id: Seq<char>,
    project: RunnerProjectFile,
    facts: ProjectFacts,
    template: Option<Seq<char>>,
    git_init: bool,
)
    ensures
        recovered_document(create, runtime_id, client_id, project, facts, template, git_init) is Object,
        (recovered_document(create, runtime_id, client_id, project, facts, template, git_init)->Object_0).len() == 21,
        recovered_document(create, runtime_id, client_id, project, facts, template, git_init).get("id"@) == Some(json::JsonView::Text(runtime_id)),
        recovered_document(create, runtime_id, client_id, project, facts, template, git_init).get("agent_project_id"@) == Some(json::JsonView::Text(project.id@)),
        recovered_document(create, runtime_id, client_id, project, facts, template, git_init).get("client_id"@) == Some(json::JsonView::Text(client_id)),
        recovered_document(create, runtime_id, client_id, project, facts, template, git_init).get("name"@) == Some(match project.name {
            Some(held) => json::JsonView::Text(held@),
            None => json::JsonView::Null,
        }),
        recovered_document(create, runtime_id, client_id, project, facts, template, git_init).get("path"@) == Some(json::JsonView::Text(project.path@)),
        recovered_document(create, runtime_id, client_id, project, facts, template, git_init).get("kind"@) == Some(match project.kind {
            Some(held) => json::JsonView::Text(held@),
            None => json::JsonView::Null,
        }),
        recovered_document(create, runtime_id, client_id, project, facts, template, git_init).get("registration_source"@) == Some(json::JsonView::Text(facts.registration_source@)),
        recovered_document(create, runtime_id, client_id, project, facts, template, git_init).get("description"@) == Some(match project.description {
            Some(held) => json::JsonView::Text(held@),
            None => json::JsonView::Null,
        }),
        recovered_document(create, runtime_id, client_id, project, facts, template, git_init).get("created_directory"@) == Some(json::JsonView::Bool(false)),
        recovered_document(create, runtime_id, client_id, project, facts, template, git_init).get("created_config"@) == Some(json::JsonView::Bool(false)),
        recovered_document(create, runtime_id, client_id, project, facts, template, git_init).get("overwritten"@) == Some(json::JsonView::Bool(false)),
        recovered_document(create, runtime_id, client_id, project, facts, template, git_init).get("allow_patch"@) == Some(json::JsonView::Bool(project.allow_patch)),
        recovered_document(create, runtime_id, client_id, project, facts, template, git_init).get("template"@) == Some(match template {
            Some(held) => json::JsonView::Text(held),
            None => json::JsonView::Null,
        }),
        recovered_document(create, runtime_id, client_id, project, facts, template, git_init).get("git_initialized"@) == Some(json::JsonView::Bool(git_init)),
        recovered_document(create, runtime_id, client_id, project, facts, template, git_init).get("recovered"@) == Some(json::JsonView::Bool(true)),
        recovered_document(create, runtime_id, client_id, project, facts, template, git_init).get("changed"@) == Some(json::JsonView::Bool(false)),
        recovered_document(create, runtime_id, client_id, project, facts, template, git_init).get("operation"@) == Some(json::JsonView::Text(if create { "create"@ } else { "register"@ })),
        recovered_document(create, runtime_id, client_id, project, facts, template, git_init).get("outcome"@) == Some(json::JsonView::Text(if create { "created"@ } else { "registered"@ })),
        recovered_document(create, runtime_id, client_id, project, facts, template, git_init).get("revision"@) == Some(json::JsonView::Text(facts.revision@)),
        recovered_document(create, runtime_id, client_id, project, facts, template, git_init).get("root_fingerprint"@) == Some(match facts.root_fingerprint {
            Some(held) => json::JsonView::Text(held@),
            None => json::JsonView::Null,
        }),
        recovered_document(create, runtime_id, client_id, project, facts, template, git_init).get("lineage"@) == Some(facts.lineage@),
{
    reveal_strlit("id");
    reveal_strlit("agent_project_id");
    reveal_strlit("client_id");
    reveal_strlit("name");
    reveal_strlit("path");
    reveal_strlit("kind");
    reveal_strlit("registration_source");
    reveal_strlit("description");
    reveal_strlit("created_directory");
    reveal_strlit("created_config");
    reveal_strlit("overwritten");
    reveal_strlit("allow_patch");
    reveal_strlit("template");
    reveal_strlit("git_initialized");
    reveal_strlit("recovered");
    reveal_strlit("changed");
    reveal_strlit("operation");
    reveal_strlit("outcome");
    reveal_strlit("revision");
    reveal_strlit("root_fingerprint");
    reveal_strlit("lineage");
    assert("id"@.len() == 2);
    assert("agent_project_id"@.len() == 16);
    assert("client_id"@.len() == 9);
    assert("name"@.len() == 4);
    assert("path"@.len() == 4);
    assert("kind"@.len() == 4);
    assert("registration_source"@.len() == 19);
    assert("description"@.len() == 11);
    assert("created_directory"@.len() == 17);
    assert("created_config"@.len() == 14);
    assert("overwritten"@.len() == 11);
    assert("allow_patch"@.len() == 11);
    assert("template"@.len() == 8);
    assert("git_initialized"@.len() == 15);
    assert("recovered"@.len() == 9);
    assert("changed"@.len() == 7);
    assert("operation"@.len() == 9);
    assert("outcome"@.len() == 7);
    assert("revision"@.len() == 8);
    assert("root_fingerprint"@.len() == 16);
    assert("lineage"@.len() == 7);
    assert("agent_project_id"@[0] != "root_fingerprint"@[0]);
    assert("client_id"@[0] != "recovered"@[0]);
    assert("client_id"@[0] != "operation"@[0]);
    assert("name"@[0] != "path"@[0]);
    assert("name"@[0] != "kind"@[0]);
    assert("path"@[0] != "kind"@[0]);
    assert("description"@[0] != "overwritten"@[0]);
    assert("description"@[0] != "allow_patch"@[0]);
    assert("overwritten"@[0] != "allow_patch"@[0]);
    assert("template"@[0] != "revision"@[0]);
    assert("recovered"@[0] != "operation"@[0]);
    assert("changed"@[0] != "outcome"@[0]);
    assert("changed"@[0] != "lineage"@[0]);
    assert("outcome"@[0] != "lineage"@[0]);
    let fields = recovered_document(create, runtime_id, client_id, project, facts, template, git_init)->Object_0;
    json::law_field_is_found(fields, 0);
    json::law_field_is_found(fields, 1);
    json::law_field_is_found(fields, 2);
    json::law_field_is_found(fields, 3);
    json::law_field_is_found(fields, 4);
    json::law_field_is_found(fields, 5);
    json::law_field_is_found(fields, 6);
    json::law_field_is_found(fields, 7);
    json::law_field_is_found(fields, 8);
    json::law_field_is_found(fields, 9);
    json::law_field_is_found(fields, 10);
    json::law_field_is_found(fields, 11);
    json::law_field_is_found(fields, 12);
    json::law_field_is_found(fields, 13);
    json::law_field_is_found(fields, 14);
    json::law_field_is_found(fields, 15);
    json::law_field_is_found(fields, 16);
    json::law_field_is_found(fields, 17);
    json::law_field_is_found(fields, 18);
    json::law_field_is_found(fields, 19);
    json::law_field_is_found(fields, 20);
}

/// A record is what was requested only where it agrees in everything that was: its
/// identifier, its path, its name, its description and whether it may be patched;
/// and a disabled one never is.
pub proof fn law_record_must_agree_in_everything(
    project: RunnerProjectFile,
    id: Seq<char>,
    name: Seq<char>,
    description: Option<Seq<char>>,
    allow_patch: bool,
    same_path: bool,
)
    ensures
        !same_path || project.disabled || project.id@ != id || project.allow_patch != allow_patch
            || project.name is None || project.name->Some_0@ != name || text::text_of(
            project.description,
        ) != description ==> !holds_request(
            project,
            id,
            name,
            description,
            allow_patch,
            same_path,
        ),
        same_path && !project.disabled ==> (project.name matches Some(held) ==> holds_request(
            project,
            project.id@,
            held@,
            text::text_of(project.description),
            project.allow_patch,
            true,
        )),
{
}

/// A creation is complete where its directory is there, and the repository and the
/// files of the basic template are where they were asked for.
pub proof fn law_creation_needs_what_was_asked_for(seen: CreatedProject, git_init: bool)
    ensures
        !seen.is_dir ==> !creation_is_complete(seen, "empty"@, git_init) && !creation_is_complete(
            seen,
            "basic"@,
            git_init,
        ),
        seen.is_dir ==> creation_is_complete(seen, "empty"@, false),
        seen.is_dir ==> (creation_is_complete(seen, "empty"@, true) <==> seen.has_git_dir),
        seen.is_dir ==> (creation_is_complete(seen, "basic"@, false) <==> seen.has_readme
            && seen.has_gitignore),
        seen.is_dir ==> (creation_is_complete(seen, "basic"@, true) <==> seen.has_readme
            && seen.has_gitignore && seen.has_git_dir),
{
    reveal_strlit("empty");
    reveal_strlit("basic");
    assert("empty"@.len() == 5);
    assert("basic"@.len() == 5);
    assert("empty"@[0] != "basic"@[0]);
    assert("empty"@[0] == 'e' && "basic"@[0] == 'b');
}

/// The name under which a project runs tells the runner and the project apart from
/// others: behind the same runner, two projects run under two names.
pub proof fn law_projects_run_under_their_own_names(
    client_id: Seq<char>,
    one: Seq<char>,
    two: Seq<char>,
)
    ensures
        text::begins_with(runtime_id_of(client_id, one), "agent:"@ + client_id + ":"@),
        text::finishes_with(runtime_id_of(client_id, one), one),
        one != two ==> runtime_id_of(client_id, one) != runtime_id_of(client_id, two),
{
    let front = "agent:"@ + client_id + ":"@;
    text::law_prefix_and_suffix(front, front, one);
    text::law_prefix_and_suffix(one, one, front);
    if runtime_id_of(client_id, one) == runtime_id_of(client_id, two) {
        assert(one =~= runtime_id_of(client_id, one).skip(front.len() as int));
        assert(two =~= runtime_id_of(client_id, two).skip(front.len() as int));
    }
}

/// The number that a large hexadecimal digit stands for.
pub open spec fn hex_value(ch: char) -> nat {
    if '0' <= ch <= '9' {
        (ch as u32 - 0x30) as nat
    } else {
        (ch as u32 - 0x41 + 10) as nat
    }
}

/// How a character is written inside quotes: as itself, but for the quote and the
/// backslash, which get a backslash before them, the line feed, the carriage return
/// and the tabulator, which have letters, and the other control characters, which
/// are written by their number.
pub proof fn law_characters_are_escaped_as_what_they_are(ch: char)
    ensures
        (ch as u32) >= 0x20 && ch as u32 != 0x7f && ch != '"' && ch != '\\' ==> toml_char(ch)
            == seq![ch],
        ch == '"' || ch == '\\' ==> toml_char(ch) == seq!['\\', ch],
        ch == '\n' ==> toml_char(ch) == seq!['\\', 'n'],
        ch == '\r' ==> toml_char(ch) == seq!['\\', 'r'],
        ch == '\t' ==> toml_char(ch) == seq!['\\', 't'],
        ((ch as u32) < 0x20 || ch as u32 == 0x7f) && ch != '\n' && ch != '\r' && ch != '\t' ==> {
            let written = toml_char(ch);
            &&& written.len() == 6
            &&& written[0] == '\\' && written[1] == 'u' && written[2] == '0' && written[3] == '0'
            &&& 16 * hex_value(written[4]) + hex_value(written[5]) == ch as u32
        },
{
}

/// A value is quoted character by character, in its order.
pub proof fn law_quoting_goes_character_by_character(front: Seq<char>, ch: char)
    ensures
        toml_quoted(Seq::empty()) == seq!['"', '"'],
        toml_escaped(front.push(ch)) == toml_escaped(front) + toml_char(ch),
        toml_quoted(front) == seq!['"'] + toml_escaped(front) + seq!['"'],
{
    assert(front.push(ch).drop_last() =~= front);
    assert(toml_quoted(Seq::empty()) =~= seq!['"', '"']);
}

/// A record that stands is taken for the request where it is the same in everything,
/// is in the way where it is not, and cannot be judged where it cannot be read;
/// without one there is nothing to take.
pub proof fn law_standing_record_is_taken_or_in_the_way(
    exists: bool,
    record: Option<RunnerProjectFile>,
    request: ProjectRequest,
    same_path: bool,
    result: Result<Option<RunnerProjectFile>, &'static str>,
)
    requires
        call_ensures(matching_existing_project, (exists, record, &request, same_path), result),
    ensures
        !exists ==> (result matches Ok(found) && found is None),
        exists && record is None ==> (result matches Err(code) && code@ == "operation_failed"@),
        exists ==> (record matches Some(project) ==> {
            let same = same_path && !project.disabled && project.id@ == request.id@ && (
            project.name matches Some(name) && name@ == request.name@) && text::text_of(
                project.description,
            ) == text::str_of(request.description) && project.allow_patch == request.allow_patch;
            &&& same ==> (result matches Ok(found) && found == Some(project))
            &&& !same ==> (result matches Err(code) && code@ == "project_already_exists"@)
        }),
{
}

} // verus!
