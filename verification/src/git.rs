//! What the output of Git commands says, and how paths are spelled for Git.
use crate::text;
use crate::text::{chars_of, has_prefix, lines, only_lower_hex, text_from_chars, to_ascii_lower, trim};
use vstd::prelude::*;
use vstd::string::*;
use vstd::utf8::*;

verus! {

/// What a bounded Git command left behind.
#[derive(Debug)]
pub struct GitOutput {
    pub success: bool,
    pub stdout: Vec<u8>,
    pub stdout_capped: bool,
    pub stderr_capped: bool,
}

/// `String::from_utf8`: a text is handed back exactly if the bytes are UTF-8,
/// and it is the text that they encode.
#[verifier::external_body]
pub(crate) fn utf8_text(bytes: Vec<u8>) -> (decoded: Option<String>)
    ensures
        match decoded {
            Some(held) => valid_utf8(bytes@) && held@ == decode_utf8(bytes@),
            None => !valid_utf8(bytes@),
        },
{
    String::from_utf8(bytes).ok()
}

/// The text of a Git command that succeeded and was kept whole.
pub open spec fn git_text_of(output: GitOutput) -> Option<Seq<char>> {
    if output.success && !output.stdout_capped && !output.stderr_capped && valid_utf8(
        output.stdout@,
    ) {
        Some(text::trimmed(decode_utf8(output.stdout@)))
    } else {
        None
    }
}

/// The text of a Git command, without the white space at its ends: nothing
/// where the command failed, was cut off or wrote no UTF-8.
pub fn managed_worktree_git_text(output: GitOutput) -> (result: Option<String>)
    ensures
        text::text_of(result) == git_text_of(output),
{
    if !output.success || output.stdout_capped || output.stderr_capped {
        return None;
    }
    match utf8_text(output.stdout) {
        Some(held) => Some(trim(held.as_str()).to_owned()),
        None => None,
    }
}

/// Whether a text is the full name of a Git object, in either case.
pub open spec fn is_object_name(name: Seq<char>) -> bool {
    (name.len() == 40 || name.len() == 64) && text::all_hex(name)
}

/// The commit that `git rev-parse --verify` named, in small letters.
pub open spec fn commit_of(output: GitOutput) -> Option<Seq<char>> {
    if output.success && !output.stdout_capped && valid_utf8(output.stdout@) && is_object_name(
        text::trimmed(decode_utf8(output.stdout@)),
    ) {
        Some(text::ascii_lowered(text::trimmed(decode_utf8(output.stdout@))))
    } else {
        None
    }
}

/// Whether a text is the full name of a Git object, in either case.
pub fn object_name(name: &str) -> (found: bool)
    ensures
        found == is_object_name(name@),
{
    let chars = chars_of(name);
    if chars.len() != 40 && chars.len() != 64 {
        return false;
    }
    let mut i: usize = 0;
    while i < chars.len()
        invariant
            i <= chars@.len(),
            chars@ == name@,
            forall|j: int| 0 <= j < i ==> text::is_hex_digit(#[trigger] name@[j]),
        decreases chars@.len() - i,
    {
        let ch = chars[i];
        if !(('0' <= ch && ch <= '9') || ('a' <= ch && ch <= 'f') || ('A' <= ch && ch <= 'F')) {
            assert(!text::is_hex_digit(name@[i as int]));
            return false;
        }
        i = i + 1;
    }
    true
}

/// The exact commit that a Git command named.
pub fn exact_git_commit(output: GitOutput) -> (commit: Option<String>)
    ensures
        text::text_of(commit) == commit_of(output),
{
    if !output.success || output.stdout_capped {
        return None;
    }
    match utf8_text(output.stdout) {
        Some(held) => {
            let name = trim(held.as_str());
            if object_name(name) {
                Some(to_ascii_lower(name))
            } else {
                None
            }
        },
        None => None,
    }
}

/// A commit that was named is the full name of an object in small letters.
pub proof fn law_commit_is_lower_hex(output: GitOutput)
    ensures
        commit_of(output) matches Some(name) ==> (name.len() == 40 || name.len() == 64)
            && text::all_lower_hex(name),
{
    if commit_of(output) is Some {
        let name = text::trimmed(decode_utf8(output.stdout@));
        let lowered = text::ascii_lowered(name);
        assert forall|i: int| 0 <= i < lowered.len() implies text::is_lower_hex_digit(
            #[trigger] lowered[i],
        ) by {
            assert(text::is_hex_digit(name[i]));
            let ch = name[i];
            if 'A' <= ch <= 'F' {
                let code = ch as u32;
                assert(0x41 <= code <= 0x46);
                assert((code + 32) as u8 == code + 32);
            }
        }
    }
}

/// Whether a text is `expected_len` small hexadecimal digits.
pub fn is_lower_hex(value: &str, expected_len: usize) -> (found: bool)
    ensures
        found == (value@.len() == expected_len && text::all_lower_hex(value@)),
{
    value.unicode_len() == expected_len && only_lower_hex(value)
}

/// Whether a text is the full name of a Git object in small letters.
pub fn is_git_object_hex(value: &str) -> (found: bool)
    ensures
        found == ((value@.len() == 40 || value@.len() == 64) && text::all_lower_hex(value@)),
{
    is_lower_hex(value, 40) || is_lower_hex(value, 64)
}

// ---- Worktree listing ----------------------------------------------------

/// The paths of a list of lines: what stands behind `worktree ` in the lines
/// that begin so.
pub open spec fn worktree_lines(all: Seq<Seq<char>>) -> Seq<Seq<char>>
    decreases all.len(),
{
    if all.len() == 0 {
        Seq::empty()
    } else {
        let before = worktree_lines(all.drop_last());
        let line = all.last();
        if text::begins_with(line, "worktree "@) {
            before.push(line.skip("worktree "@.len() as int))
        } else {
            before
        }
    }
}

/// The worktrees that `git worktree list --porcelain` lists.
pub open spec fn listed_of(listing: Seq<char>) -> Seq<Seq<char>> {
    worktree_lines(text::lines_of(listing))
}

/// The worktrees that `git worktree list --porcelain` lists.
pub fn listed_worktrees(listing: &str) -> (paths: Vec<String>)
    ensures
        text::texts(paths@) == listed_of(listing@),
{
    let all = lines(listing);
    let ghost whole = text::texts(all@);
    let mut paths: Vec<String> = Vec::new();
    let mut i: usize = 0;
    assert(whole.take(0) =~= Seq::<Seq<char>>::empty());
    assert(text::texts(paths@) =~= worktree_lines(whole.take(0)));
    while i < all.len()
        invariant
            i <= all@.len(),
            whole == text::texts(all@),
            text::texts(paths@) == worktree_lines(whole.take(i as int)),
        decreases all@.len() - i,
    {
        let ghost before = text::texts(paths@);
        let line = all[i].as_str();
        assert(whole.take(i + 1).drop_last() =~= whole.take(i as int));
        assert(whole.take(i + 1).last() == line@);
        if has_prefix(line, "worktree ") {
            let start = "worktree ".unicode_len();
            let end = line.unicode_len();
            let path = line.substring_char(start, end).to_owned();
            assert(path@ =~= line@.skip("worktree "@.len() as int));
            let ghost held = path@;
            paths.push(path);
            assert(text::texts(paths@) =~= before.push(held));
        }
        i = i + 1;
    }
    assert(whole.take(i as int) =~= whole);
    paths
}

// ---- Paths for the command line --------------------------------------------

/// Whether a character is an ASCII letter.
pub open spec fn is_ascii_letter(ch: char) -> bool {
    'a' <= ch <= 'z' || 'A' <= ch <= 'Z'
}

/// A character with an ASCII small letter made large.
pub open spec fn ascii_large(ch: char) -> char {
    if 'a' <= ch <= 'z' {
        (ch as u32 - 32) as u8 as char
    } else {
        ch
    }
}

/// Whether a path is a verbatim path on a local disk: `\\?\`, a drive letter, a
/// colon, and then nothing or a separator.
pub open spec fn is_verbatim_disk(path: Seq<char>) -> bool {
    &&& path.len() >= 6
    &&& path[0] == '\\'
    &&& path[1] == '\\'
    &&& path[2] == '?'
    &&& path[3] == '\\'
    &&& is_ascii_letter(path[4])
    &&& path[5] == ':'
    &&& path.len() > 6 ==> path[6] == '\\'
}

/// Whether a component of a verbatim path is an ordinary file name: neither a
/// reference to its own or the parent directory, nor a name that would read as
/// a root or a drive outside a verbatim path.
pub open spec fn is_plain_part(part: Seq<char>) -> bool {
    &&& part != seq!['.']
    &&& part != seq!['.', '.']
    &&& !(part.len() >= 1 && part[0] == '/')
    &&& !(part.len() >= 2 && is_ascii_letter(part[0]) && part[1] == ':')
}

/// The text `rendered` with `parts` joined on, one separator before each but
/// where one stands already; empty parts are passed over.
pub open spec fn joined_parts(rendered: Seq<char>, parts: Seq<Seq<char>>) -> Seq<char>
    decreases parts.len(),
{
    if parts.len() == 0 {
        rendered
    } else {
        let before = joined_parts(rendered, parts.drop_last());
        let part = parts.last();
        if part.len() == 0 {
            before
        } else if before.len() > 0 && (before.last() == '\\' || before.last() == '/') {
            before + part
        } else {
            before.push('\\') + part
        }
    }
}

/// The spelling of a Windows path for Git: a verbatim local-disk path loses its
/// verbatim prefix, every other path stays as it is.
pub open spec fn cli_path(path: Seq<char>) -> Seq<char> {
    if is_verbatim_disk(path) {
        let parts = text::split_on(path.skip(6), '\\');
        if forall|i: int| 0 <= i < parts.len() ==> is_plain_part(#[trigger] parts[i]) {
            joined_parts(seq![ascii_large(path[4]), ':', '\\'], parts)
        } else {
            path
        }
    } else {
        path
    }
}

/// Whether a part of a verbatim path is an ordinary file name.
fn plain_part(part: &str) -> (plain: bool)
    ensures
        plain == is_plain_part(part@),
{
    let chars = chars_of(part);
    proof {
        assert(part@ == seq!['.'] <==> (part@.len() == 1 && part@[0] == '.')) by {
            if part@.len() == 1 && part@[0] == '.' {
                assert(part@ =~= seq!['.']);
            }
        }
        assert(part@ == seq!['.', '.'] <==> (part@.len() == 2 && part@[0] == '.' && part@[1]
            == '.')) by {
            if part@.len() == 2 && part@[0] == '.' && part@[1] == '.' {
                assert(part@ =~= seq!['.', '.']);
            }
        }
    }
    if chars.len() == 1 && chars[0] == '.' {
        return false;
    }
    if chars.len() == 2 && chars[0] == '.' && chars[1] == '.' {
        return false;
    }
    if chars.len() >= 1 && chars[0] == '/' {
        return false;
    }
    if chars.len() >= 2 && (('a' <= chars[0] && chars[0] <= 'z') || ('A' <= chars[0] && chars[0]
        <= 'Z')) && chars[1] == ':' {
        return false;
    }
    true
}

/// The spelling of a path for Git's command line. On Windows a verbatim
/// local-disk path becomes the ordinary spelling of the same path; elsewhere,
/// and for every other path, the path is spelled as it is.
pub fn managed_worktree_git_cli_path(path: &str, windows: bool) -> (spelled: String)
    ensures
        spelled@ == (if windows {
            cli_path(path@)
        } else {
            path@
        }),
{
    let chars = chars_of(path);
    if !windows || chars.len() < 6 || chars[0] != '\\' || chars[1] != '\\' || chars[2] != '?'
        || chars[3] != '\\' || chars[5] != ':' {
        return path.to_owned();
    }
    let drive = chars[4];
    if !(('a' <= drive && drive <= 'z') || ('A' <= drive && drive <= 'Z')) {
        return path.to_owned();
    }
    if chars.len() > 6 && chars[6] != '\\' {
        return path.to_owned();
    }
    let rest = text_from_chars(&chars, 6, chars.len());
    assert(rest@ =~= path@.skip(6));
    let pieces = text::split(rest.as_str(), '\\');
    let ghost parts = text::texts(pieces@);
    let mut i: usize = 0;
    while i < pieces.len()
        invariant
            i <= pieces@.len(),
            parts == text::texts(pieces@),
            is_verbatim_disk(path@),
            windows,
            parts == text::split_on(path@.skip(6), '\\'),
            forall|j: int| 0 <= j < i ==> is_plain_part(#[trigger] parts[j]),
        decreases pieces@.len() - i,
    {
        if !plain_part(pieces[i].as_str()) {
            assert(!is_plain_part(parts[i as int]));
            return path.to_owned();
        }
        i = i + 1;
    }
    let large = if 'a' <= drive && drive <= 'z' { (drive as u32 - 32) as u8 as char } else { drive };
    let mut rendered = String::new();
    rendered.push(large);
    rendered.push(':');
    rendered.push('\\');
    let mut separated = true;
    let ghost root = seq![ascii_large(path@[4]), ':', '\\'];
    assert(rendered@ =~= root);
    assert(parts.take(0) =~= Seq::<Seq<char>>::empty());
    let mut k: usize = 0;
    while k < pieces.len()
        invariant
            k <= pieces@.len(),
            parts == text::texts(pieces@),
            rendered@ == joined_parts(root, parts.take(k as int)),
            rendered@.len() > 0,
            separated == (rendered@.last() == '\\' || rendered@.last() == '/'),
        decreases pieces@.len() - k,
    {
        let piece = pieces[k].as_str();
        assert(parts.take(k + 1).drop_last() =~= parts.take(k as int));
        assert(parts.take(k + 1).last() == piece@);
        let length = piece.unicode_len();
        if length > 0 {
            if !separated {
                rendered.push('\\');
            }
            rendered.append(piece);
            let last = piece.get_char(length - 1);
            separated = last == '\\' || last == '/';
        }
        k = k + 1;
    }
    assert(parts.take(k as int) =~= parts);
    rendered
}

/// The worktrees of a listing are the paths of its `worktree` lines, in their
/// order: those of two stretches of lines are those of the first and then those of
/// the second, and of one line the path behind the word, or nothing.
pub proof fn law_listing_names_its_worktrees(first: Seq<Seq<char>>, second: Seq<Seq<char>>)
    ensures
        worktree_lines(first + second) == worktree_lines(first) + worktree_lines(second),
        forall|path: Seq<char>|
            worktree_lines(seq![#[trigger] ("worktree "@ + path)]) == seq![path],
        forall|line: Seq<char>|
            !text::begins_with(line, "worktree "@) ==> #[trigger] worktree_lines(seq![line])
                == Seq::<Seq<char>>::empty(),
    decreases second.len(),
{
    assert forall|path: Seq<char>| worktree_lines(seq![#[trigger] ("worktree "@ + path)])
        == seq![path] by {
        let line = "worktree "@ + path;
        text::law_prefix_and_suffix(line, "worktree "@, path);
        assert(line.skip("worktree "@.len() as int) =~= path);
        assert(seq![line].drop_last() =~= Seq::<Seq<char>>::empty());
        assert(seq![line].last() == line);
        reveal_with_fuel(worktree_lines, 2);
        assert(worktree_lines(seq![line]) =~= seq![path]);
    }
    assert forall|line: Seq<char>|
        !text::begins_with(line, "worktree "@) implies #[trigger] worktree_lines(seq![line])
        == Seq::<Seq<char>>::empty() by {
        assert(seq![line].drop_last() =~= Seq::<Seq<char>>::empty());
        assert(seq![line].last() == line);
        reveal_with_fuel(worktree_lines, 2);
    }
    if second.len() == 0 {
        assert(first + second =~= first);
        assert(worktree_lines(first) + worktree_lines(second) =~= worktree_lines(first));
    } else {
        law_listing_names_its_worktrees(first, second.drop_last());
        assert((first + second).drop_last() =~= first + second.drop_last());
        assert((first + second).last() == second.last());
        assert(worktree_lines(first + second) =~= worktree_lines(first) + worktree_lines(second));
    }
}

/// A listing of one worktree, as Git prints it, names that worktree, whatever else
/// it says of it.
pub proof fn law_printed_worktree_is_listed(path: Seq<char>, rest: Seq<char>)
    requires
        !path.contains('\n'),
        path.len() == 0 || path.last() != '\r',
    ensures
        listed_of(("worktree "@ + path).push('\n') + rest) == seq![path] + listed_of(rest),
{
    reveal_strlit("worktree ");
    let line = "worktree "@ + path;
    assert forall|i: int| 0 <= i < line.len() implies line[i] != '\n' by {
        if i >= 9 {
            assert(line[i] == path[i - 9]);
            assert(path.contains(path[i - 9]));
        }
    }
    assert(!line.contains('\n'));
    assert(line.last() != '\r') by {
        if path.len() > 0 {
            assert(line.last() == path.last());
        } else {
            assert(line.last() == ' ');
        }
    }
    text::law_lines_go_one_by_one(line, rest);
    law_listing_names_its_worktrees(seq![line], text::lines_of(rest));
    assert(worktree_lines(seq!["worktree "@ + path]) == seq![path]);
}

/// What Git printed is taken only where it succeeded and nothing of it was cut off,
/// and is the text without the white space around it.
pub proof fn law_cut_or_failed_output_says_nothing(output: GitOutput)
    ensures
        !output.success || output.stdout_capped ==> git_text_of(output) is None && commit_of(output)
            is None,
        output.stderr_capped ==> git_text_of(output) is None,
        !valid_utf8(output.stdout@) ==> git_text_of(output) is None && commit_of(output) is None,
        git_text_of(output) matches Some(said) ==> said == text::trimmed(
            decode_utf8(output.stdout@),
        ),
        output.success && !output.stdout_capped && !output.stderr_capped && valid_utf8(
            output.stdout@,
        ) ==> git_text_of(output) is Some,
        commit_of(output) matches Some(name) ==> {
            let printed = text::trimmed(decode_utf8(output.stdout@));
            &&& name == text::ascii_lowered(printed)
            &&& printed.len() == 40 || printed.len() == 64
            &&& text::all_hex(printed)
        },
        output.success && !output.stdout_capped && valid_utf8(output.stdout@) && text::trimmed(
            decode_utf8(output.stdout@),
        ).len() == 40 && text::all_hex(text::trimmed(decode_utf8(output.stdout@)))
            ==> commit_of(output) is Some,
{
}

/// How a path is spelled for Git: one without the verbatim prefix of a disk stays
/// as it is, and of one with it the prefix goes and the letter of the disk becomes a
/// large one.
pub proof fn law_disk_paths_lose_their_prefix(letter: char, part: Seq<char>)
    requires
        'a' <= letter <= 'z' || 'A' <= letter <= 'Z',
        !part.contains('\\'),
        part.len() > 0,
        is_plain_part(part),
    ensures
        ({
            let path = seq!['\\', '\\', '?', '\\', letter, ':', '\\'] + part;
            let large = if 'a' <= letter <= 'z' {
                (letter as u32 - 32) as u8 as char
            } else {
                letter
            };
            &&& cli_path(path) == seq![large, ':', '\\'] + part
            &&& cli_path(path.skip(4)) == path.skip(4)
            &&& cli_path(part) == part
        }),
{
    let path = seq!['\\', '\\', '?', '\\', letter, ':', '\\'] + part;
    assert(path.skip(6) =~= Seq::<char>::empty().push('\\') + part);
    text::law_split_goes_piece_by_piece(Seq::<char>::empty(), '\\', part);
    text::law_split_goes_piece_by_piece(part, '\\', Seq::empty());
    let parts = text::split_on(path.skip(6), '\\');
    assert(parts =~= seq![Seq::<char>::empty(), part]);
    assert(is_plain_part(parts[0]) && is_plain_part(parts[1]));
    let root = seq![ascii_large(letter), ':', '\\'];
    assert(parts.drop_last() =~= seq![Seq::<char>::empty()]);
    assert(parts.drop_last().drop_last() =~= Seq::<Seq<char>>::empty());
    reveal_with_fuel(joined_parts, 3);
    assert(joined_parts(root, parts) == root + part);
    assert(path.skip(4)[0] == letter);
    assert(part[0] != '\\') by {
        assert(part.contains(part[0]));
    }
}

/// A part of a path is plain where it stands neither for this directory nor for the
/// one above, does not begin anew at a root, and names no disk.
pub proof fn law_plain_parts_lead_down(part: Seq<char>)
    ensures
        part == seq!['.'] || part == seq!['.', '.'] ==> !is_plain_part(part),
        part.len() > 0 && part[0] == '/' ==> !is_plain_part(part),
        part.len() > 1 && part[1] == ':' && ('a' <= part[0] <= 'z' || 'A' <= part[0] <= 'Z')
            ==> !is_plain_part(part),
        part.len() > 0 && part[0] != '/' && part[0] != '.' && (part.len() == 1 || part[1] != ':')
            ==> is_plain_part(part),
{
    if part.len() > 0 && part[0] != '.' {
        assert(seq!['.'][0] == '.');
        assert(seq!['.', '.'][0] == '.');
    }
}

/// The parts of a path are put behind each other with one backslash between two of
/// them: none where the path already ends with a separator, and none for an empty
/// part.
pub proof fn law_parts_are_joined_by_backslashes(
    rendered: Seq<char>,
    parts: Seq<Seq<char>>,
    part: Seq<char>,
)
    ensures
        joined_parts(rendered, Seq::empty()) == rendered,
        part.len() == 0 ==> joined_parts(rendered, parts.push(part)) == joined_parts(
            rendered,
            parts,
        ),
        part.len() > 0 ==> ({
            let before = joined_parts(rendered, parts);
            let ends = before.len() > 0 && (before.last() == '/' || before.last() == '\\');
            &&& ends ==> joined_parts(rendered, parts.push(part)) == before + part
            &&& !ends ==> joined_parts(rendered, parts.push(part)) == before.push('\\') + part
        }),
{
    assert(parts.push(part).drop_last() =~= parts);
}

/// A verbatim path with a part that is not plain keeps its spelling.
pub proof fn law_unplain_paths_keep_their_spelling(path: Seq<char>, i: int)
    requires
        path.len() >= 6,
        0 <= i < text::split_on(path.skip(6), '\\').len(),
        !is_plain_part(text::split_on(path.skip(6), '\\')[i]),
    ensures
        cli_path(path) == path,
{
}

} // verus!
